//! The Discord gateway: how it keeps its connection, whose messages are taken, what the daemon is
//! asked, and what is sent back.
use crate::daemon::request;
use crate::daemon::request::{ClientRequest, RequestView};
use crate::error::{AppError, AppResult};
use crate::gateway;
use crate::gateway::{chunks, gateway_token, trimmed_base, EnvVar};
use crate::json;
use crate::json::{parse_u64, Field, FieldKind, Json, JsonView, ObjectBuilder};
use crate::shape;
use crate::shape::{Shape, ShapeView};
use crate::table;
use crate::text;
use vstd::prelude::*;

verus! {

pub const DISCORD_API_BASE: &'static str = "https://discord.com/api/v10";

/// What the gateway wants to hear of: messages in guilds and to itself, and what they say.
pub const DISCORD_INTENTS: u64 = 37_376;

/// How many characters a message may have.
pub const DISCORD_MESSAGE_LIMIT: usize = 2_000;

/// How long the gateway waits for a greeting, in milliseconds.
pub const GATEWAY_HELLO_TIMEOUT: u64 = 10_000;

/// How long the gateway waits for a message at a time, in milliseconds.
pub const GATEWAY_READ_TIMEOUT: u64 = 100;

/// How long the gateway waits between two connections, in milliseconds.
pub const GATEWAY_RECONNECT_DELAY: u64 = 1_000;

/// What the gateway needs a daemon to do.
pub open spec fn required_names() -> Seq<Seq<char>> {
    seq![
        "hello"@,
        "run.start"@,
        "message.append"@,
        "events.stream"@,
        "sessions.list"@,
        "transcript.read"@,
    ]
}

/// What the gateway needs a daemon to do.
pub fn required_capabilities() -> (r: Vec<&'static str>)
    ensures
        gateway::name_views(r@) == required_names(),
{
    let r = vec![
        "hello",
        "run.start",
        "message.append",
        "events.stream",
        "sessions.list",
        "transcript.read",
    ];
    assert(gateway::name_views(r@) =~= required_names());
    r
}

/// How the gateway is started.
#[derive(Clone, Debug, PartialEq, Eq)]
pub struct DiscordGatewayOptions {
    pub workspace_root: String,
    pub socket_path: Option<String>,
    pub config_path: Option<String>,
}

/// What the configuration says of the gateway.
#[derive(Debug, PartialEq, Eq)]
pub struct DiscordGatewayConfig {
    pub api_key_env: String,
    pub owner_user_ids: Vec<u64>,
}

impl DiscordGatewayConfig {
    /// The token that the gateway runs with.
    pub fn token(&self, provider_env: &str, env: &Vec<EnvVar>) -> (r: AppResult<String>)
        ensures
            gateway::token_is(
                r,
                gateway::token_in(provider_env@, self.api_key_env@, gateway::env_rows(env@)),
            ),
    {
        gateway_token(provider_env, self.api_key_env.as_str(), env)
    }
}

/// How a connection ends: it is taken up again, begun anew, or given up.
#[derive(Debug, PartialEq, Eq)]
pub enum GatewayControl {
    Resume,
    Reidentify,
    Fatal(AppError),
    Stop,
}

/// What the end of a connection stands for.
pub enum ControlView {
    Resume,
    Reidentify,
    /// Given up, for what is wrong at the other end.
    Fatal(Seq<char>),
    Stop,
}

/// Whether a connection ends as it should.
pub open spec fn control_is(control: GatewayControl, wanted: ControlView) -> bool {
    match wanted {
        ControlView::Resume => control is Resume,
        ControlView::Reidentify => control is Reidentify,
        ControlView::Fatal(message) => control matches GatewayControl::Fatal(
            AppError::Provider(detail),
        ) && detail@ == message,
        ControlView::Stop => control is Stop,
    }
}

/// The end of a connection whose other end says what cannot be read.
pub open spec fn invalid() -> ControlView {
    ControlView::Fatal("discord gateway returned an invalid payload"@)
}

fn invalid_gateway_payload() -> (r: GatewayControl)
    ensures
        control_is(r, invalid()),
{
    GatewayControl::Fatal(
        AppError::Provider("discord gateway returned an invalid payload".to_owned()),
    )
}

/// How a connection ends that the other end closed: some codes are final, and some end the session.
pub open spec fn closed_with(code: Option<u16>) -> ControlView {
    match code {
        Some(code) => if code == 4004 || code == 4010 || code == 4011 || code == 4012 || code
            == 4013 || code == 4014 {
            ControlView::Fatal(
                "discord gateway closed with fatal code "@ + text::decimal(code as nat),
            )
        } else if code == 4007 || code == 4009 {
            ControlView::Reidentify
        } else {
            ControlView::Resume
        },
        None => ControlView::Resume,
    }
}

/// How a connection ends that the other end closed.
pub fn close_control(code: Option<u16>) -> (r: GatewayControl)
    ensures
        control_is(r, closed_with(code)),
{
    match code {
        Some(code) => if code == 4004 || code == 4010 || code == 4011 || code == 4012 || code
            == 4013 || code == 4014 {
            GatewayControl::Fatal(
                AppError::Provider(
                    text::text2(
                        "discord gateway closed with fatal code ",
                        text::decimal_u64(code as u64).as_str(),
                    ),
                ),
            )
        } else if code == 4007 || code == 4009 {
            GatewayControl::Reidentify
        } else {
            GatewayControl::Resume
        },
        None => GatewayControl::Resume,
    }
}

/// The number that an identifier is: digits, with or without a plus sign before them.
pub open spec fn snowflake(value: Seq<char>) -> Option<u64> {
    if value.len() > 0 && value[0] == '+' {
        json::numeral_u64(value.skip(1))
    } else {
        json::numeral_u64(value)
    }
}

/// The number that an identifier is.
pub fn parse_snowflake(value: &str) -> (r: AppResult<u64>)
    ensures
        match snowflake(value@) {
            Some(id) => r == Ok::<u64, AppError>(id),
            None => r matches Err(AppError::Provider(detail)) && detail@
                == "discord gateway returned an invalid snowflake"@,
        },
{
    let chars = text::chars_of(value);
    let id = if chars.len() > 0 && chars[0] == '+' {
        let digits = text::text_between(&chars, 1, chars.len());
        assert(digits@ =~= value@.skip(1));
        parse_u64(digits.as_str())
    } else {
        parse_u64(value)
    };
    match id {
        Some(id) => Ok(id),
        None => Err(AppError::Provider("discord gateway returned an invalid snowflake".to_owned())),
    }
}

/// How long the first heartbeat waits: a part of the interval that the seed picks.
pub fn heartbeat_jitter(interval: u64, seed: u64) -> (r: u64)
    ensures
        r == if interval == 0 {
            0
        } else {
            seed % interval
        },
        interval > 0 ==> r < interval,
{
    if interval == 0 {
        0
    } else {
        seed % interval
    }
}

/// What was read from the connection.
#[derive(Debug, PartialEq, Eq)]
pub enum SocketRead {
    Text(String),
    /// A ping, or the answer to one.
    Ping,
    Close(Option<u16>),
    /// A message that is no text.
    Other,
    /// Nothing came in time.
    Idle,
    /// The connection broke.
    Broken,
}

/// What came over the connection.
#[derive(Debug, PartialEq, Eq)]
pub struct GatewayPayload {
    pub op: u8,
    pub d: Json,
    pub s: Option<u64>,
    pub t: Option<String>,
}

/// What a payload stands for.
pub struct PayloadView {
    pub op: u8,
    pub d: JsonView,
    pub s: Option<u64>,
    pub t: Option<Seq<char>>,
}

impl GatewayPayload {
    /// The payload that `self` stands for.
    pub open spec fn view(&self) -> PayloadView {
        PayloadView { op: self.op, d: self.d@, s: self.s, t: text::opt_view(self.t) }
    }
}

/// Whether a member is missing, or null.
pub open spec fn absent(value: JsonView, name: Seq<char>) -> bool {
    json::member_of(value, name) is None || json::member_of(value, name) == Some(JsonView::Null)
}

fn is_absent(value: &Json, name: &str) -> (r: bool)
    ensures
        r == absent(value@, name@),
{
    match value.get(name) {
        None => true,
        Some(Json::Null) => true,
        Some(_) => false,
    }
}

/// The payload that a value is.
pub open spec fn payload_in(value: JsonView) -> Option<PayloadView> {
    let op = json::u64_in(json::member_of(value, "op"@));
    let s = json::u64_in(json::member_of(value, "s"@));
    let t = json::text_in(json::member_of(value, "t"@));
    if op is None || op->Some_0 > 255 || (!absent(value, "s"@) && s is None) || (!absent(
        value,
        "t"@,
    ) && t is None) {
        None
    } else {
        Some(
            PayloadView {
                op: op->Some_0 as u8,
                d: match json::member_of(value, "d"@) {
                    Some(d) => d,
                    None => JsonView::Null,
                },
                s,
                t,
            },
        )
    }
}

fn read_payload_value(value: &Json) -> (r: Option<GatewayPayload>)
    ensures
        (match r {
            Some(payload) => Some(payload@),
            None => None,
        }) == payload_in(value@),
{
    let op = match value.number_member("op") {
        Some(op) => op,
        None => {
            return None;
        },
    };
    if op > 255 {
        return None;
    }
    let s = value.number_member("s");
    if s.is_none() && !is_absent(value, "s") {
        return None;
    }
    let t = value.text_member("t");
    if t.is_none() && !is_absent(value, "t") {
        return None;
    }
    let d = match value.get("d") {
        Some(d) => d.clone(),
        None => Json::Null,
    };
    Some(GatewayPayload { op: op as u8, d, s, t })
}

/// The fields of a payload, in the order in which a list tells them.
pub open spec fn payload_fields() -> Seq<Field> {
    seq![
        Field { name: "op", kind: FieldKind::Number },
        Field { name: "d", kind: FieldKind::OptionalValue },
        Field { name: "s", kind: FieldKind::OptionalNumber },
        Field { name: "t", kind: FieldKind::OptionalText },
    ]
}

/// What is taken of a payload.
pub open spec fn payload_shape() -> ShapeView {
    ShapeView::Record(
        seq![
            ("op"@, ShapeView::Any),
            ("d"@, ShapeView::Any),
            ("s"@, ShapeView::Any),
            ("t"@, ShapeView::Any),
        ],
    )
}

fn shape_of_payload() -> (r: Shape)
    ensures
        r@ == payload_shape(),
{
    let fields = vec![
        shape::whole("op"),
        shape::whole("d"),
        shape::whole("s"),
        shape::whole("t"),
    ];
    assert(shape::field_views(fields@) =~= payload_shape()->Record_0);
    shape::record(fields)
}

fn read_payload_text(text: &str) -> (r: Option<GatewayPayload>)
    ensures
        (match r {
            Some(payload) => Some(payload@),
            None => None,
        }) == match shape::shaped(payload_shape(), text@) {
            Ok(value) => payload_in(json::by_name(value, payload_fields(), 4)),
            Err(_) => None,
        },
{
    let value = match shape_of_payload().read(text) {
        Ok(value) => value,
        Err(_) => {
            return None;
        },
    };
    let fields = vec![
        Field { name: "op", kind: FieldKind::Number },
        Field { name: "d", kind: FieldKind::OptionalValue },
        Field { name: "s", kind: FieldKind::OptionalNumber },
        Field { name: "t", kind: FieldKind::OptionalText },
    ];
    assert(fields@ =~= payload_fields());
    read_payload_value(&value.by_name(&fields, 4))
}

/// The payload in what was read, or how the connection ends.
pub open spec fn payload_read(read: SocketRead) -> Result<Option<PayloadView>, ControlView> {
    match read {
        SocketRead::Text(text) => match shape::shaped(payload_shape(), text@) {
            Ok(value) => match payload_in(json::by_name(value, payload_fields(), 4)) {
                Some(payload) => Ok(Some(payload)),
                None => Err(invalid()),
            },
            Err(_) => Err(invalid()),
        },
        SocketRead::Ping => Ok(None),
        SocketRead::Close(code) => Err(closed_with(code)),
        SocketRead::Other => Err(invalid()),
        SocketRead::Idle => Ok(None),
        SocketRead::Broken => Err(ControlView::Resume),
    }
}

/// The payload in what was read, or how the connection ends.
pub fn read_gateway_payload(read: SocketRead) -> (r: Result<Option<GatewayPayload>, GatewayControl>)
    ensures
        match payload_read(read) {
            Ok(wanted) => r matches Ok(given) && (match given {
                Some(payload) => Some(payload@),
                None => None,
            }) == wanted,
            Err(wanted) => r matches Err(control) && control_is(control, wanted),
        },
{
    match read {
        SocketRead::Text(text) => match read_payload_text(text.as_str()) {
            Some(payload) => Ok(Some(payload)),
            None => Err(invalid_gateway_payload()),
        },
        SocketRead::Ping => Ok(None),
        SocketRead::Close(code) => Err(close_control(code)),
        SocketRead::Other => Err(invalid_gateway_payload()),
        SocketRead::Idle => Ok(None),
        SocketRead::Broken => Err(GatewayControl::Resume),
    }
}

/// How often the other end wants to hear from the gateway, as its greeting says.
pub open spec fn greeted(payload: PayloadView) -> Option<u64> {
    match json::u64_in(json::member_of(payload.d, "heartbeat_interval"@)) {
        Some(interval) => if payload.op == 10 && interval > 0 {
            Some(interval)
        } else {
            None
        },
        None => None,
    }
}

/// How often the other end wants to hear from the gateway, in milliseconds.
pub fn hello_interval(payload: &GatewayPayload) -> (r: Result<u64, GatewayControl>)
    ensures
        match greeted(payload@) {
            Some(interval) => r matches Ok(given) && given == interval,
            None => r matches Err(control) && control_is(control, invalid()),
        },
{
    if payload.op != 10 {
        return Err(invalid_gateway_payload());
    }
    match payload.d.number_member("heartbeat_interval") {
        Some(interval) => if interval > 0 {
            Ok(interval)
        } else {
            Err(invalid_gateway_payload())
        },
        None => Err(invalid_gateway_payload()),
    }
}

/// How a connection ends on which no greeting came.
pub fn hello_missing(stop: bool) -> (r: GatewayControl)
    ensures
        control_is(
            r,
            if stop {
                ControlView::Stop
            } else {
                ControlView::Resume
            },
        ),
{
    if stop {
        GatewayControl::Stop
    } else {
        GatewayControl::Resume
    }
}

/// A session at the other end, which outlives a connection.
#[derive(Debug, PartialEq, Eq)]
pub struct DiscordSession {
    pub session_id: String,
    pub resume_gateway_url: String,
    pub sequence: u64,
}

/// What a session stands for.
pub struct SessionView {
    pub session_id: Seq<char>,
    pub resume_gateway_url: Seq<char>,
    pub sequence: u64,
}

/// What an optional session stands for.
pub open spec fn session_view(session: Option<DiscordSession>) -> Option<SessionView> {
    match session {
        Some(session) => Some(
            SessionView {
                session_id: session.session_id@,
                resume_gateway_url: session.resume_gateway_url@,
                sequence: session.sequence,
            },
        ),
        None => None,
    }
}

/// The address that the next connection goes to.
pub open spec fn address_of(session: Option<SessionView>, initial_url: Seq<char>) -> Seq<char> {
    match session {
        Some(session) => session.resume_gateway_url,
        None => initial_url,
    }
}

/// An address as `url::Url` writes it with the given pairs for its query; nothing where
/// `url::Url::parse` refuses it.
pub uninterp spec fn url_with_query(
    address: Seq<char>,
    pairs: Seq<(Seq<char>, Seq<char>)>,
) -> Option<Seq<char>>;

/// What pairs stand for.
pub open spec fn pair_views(pairs: Seq<(&'static str, &'static str)>) -> Seq<
    (Seq<char>, Seq<char>),
> {
    Seq::new(pairs.len(), |i: int| (pairs[i].0@, pairs[i].1@))
}

/// Reads an address by `url::Url::parse`, and writes it with other pairs for its query, by
/// `query_pairs_mut`. The result depends on the address and the pairs alone.
#[verifier::external_body]
fn with_query(address: &str, pairs: &Vec<(&'static str, &'static str)>) -> (r: Option<String>)
    ensures
        text::opt_view(r) == url_with_query(address@, pair_views(pairs@)),
{
    let mut url = url::Url::parse(address).ok()?;
    url.query_pairs_mut().clear().extend_pairs(pairs);
    Some(url.to_string())
}

/// The query of the gateway's address: which version and encoding it speaks.
pub open spec fn gateway_query() -> Seq<(Seq<char>, Seq<char>)> {
    seq![("v"@, "10"@), ("encoding"@, "json"@)]
}

/// The address of the gateway, with the version and the encoding that it speaks.
pub fn gateway_url(base_url: &str) -> (r: AppResult<String>)
    ensures
        match url_with_query(base_url@, gateway_query()) {
            Some(address) => r matches Ok(given) && given@ == address,
            None => r matches Err(AppError::Provider(detail)) && detail@
                == "discord gateway returned an invalid websocket URL"@,
        },
{
    let pairs = vec![("v", "10"), ("encoding", "json")];
    assert(pair_views(pairs@) =~= gateway_query());
    gateway_address(with_query(base_url, &pairs))
}

/// The address of the gateway, where it could be read.
pub fn gateway_address(address: Option<String>) -> (r: AppResult<String>)
    ensures
        match address {
            Some(address) => r == Ok::<String, AppError>(address),
            None => r matches Err(AppError::Provider(detail)) && detail@
                == "discord gateway returned an invalid websocket URL"@,
        },
{
    match address {
        Some(address) => Ok(address),
        None => Err(
            AppError::Provider("discord gateway returned an invalid websocket URL".to_owned()),
        ),
    }
}

/// The address that the next connection goes to: that of the session, or the first one.
pub fn connection_url(session: &Option<DiscordSession>, initial_url: &str) -> (r: AppResult<String>)
    ensures
        match url_with_query(address_of(session_view(*session), initial_url@), gateway_query()) {
            Some(address) => r matches Ok(given) && given@ == address,
            None => r matches Err(AppError::Provider(detail)) && detail@
                == "discord gateway returned an invalid websocket URL"@,
        },
{
    match session {
        Some(session) => gateway_url(session.resume_gateway_url.as_str()),
        None => gateway_url(initial_url),
    }
}

/// What the gateway says first: it takes its session up again, or says who it is.
pub open spec fn opening(token: Seq<char>, session: Option<SessionView>, os: Seq<char>) -> JsonView {
    match session {
        Some(session) => JsonView::Object(
            json::no_members().push(
                (
                    "d"@,
                    JsonView::Object(
                        json::no_members().push(
                            ("seq"@, JsonView::Number(text::decimal(session.sequence as nat))),
                        ).push(("session_id"@, JsonView::Text(session.session_id))).push(
                            ("token"@, JsonView::Text(token)),
                        ),
                    ),
                ),
            ).push(("op"@, JsonView::Number(text::decimal(6)))),
        ),
        None => JsonView::Object(
            json::no_members().push(
                (
                    "d"@,
                    JsonView::Object(
                        json::no_members().push(
                            (
                                "intents"@,
                                JsonView::Number(text::decimal(DISCORD_INTENTS as nat)),
                            ),
                        ).push(
                            (
                                "properties"@,
                                JsonView::Object(
                                    json::no_members().push(
                                        ("browser"@, JsonView::Text("plato-agent"@)),
                                    ).push(("device"@, JsonView::Text("plato-agent"@))).push(
                                        ("os"@, JsonView::Text(os)),
                                    ),
                                ),
                            ),
                        ).push(("token"@, JsonView::Text(token))),
                    ),
                ),
            ).push(("op"@, JsonView::Number(text::decimal(2)))),
        ),
    }
}

/// What the gateway says first.
pub fn opening_payload(token: &str, session: &Option<DiscordSession>, os: &str) -> (r: Json)
    ensures
        r@ == opening(token@, session_view(*session), os@),
{
    match session {
        Some(session) => {
            let d = ObjectBuilder::new().number("seq", session.sequence).text(
                "session_id",
                session.session_id.as_str(),
            ).text("token", token).build();
            ObjectBuilder::new().with("d", d).number("op", 6).build()
        },
        None => {
            let properties = ObjectBuilder::new().text("browser", "plato-agent").text(
                "device",
                "plato-agent",
            ).text("os", os).build();
            let d = ObjectBuilder::new().number("intents", DISCORD_INTENTS).with(
                "properties",
                properties,
            ).text("token", token).build();
            ObjectBuilder::new().with("d", d).number("op", 2).build()
        },
    }
}

/// A heartbeat, with the number of what came last.
pub open spec fn heartbeat(sequence: Option<u64>) -> JsonView {
    JsonView::Object(
        json::no_members().push(
            (
                "d"@,
                match sequence {
                    Some(sequence) => JsonView::Number(text::decimal(sequence as nat)),
                    None => JsonView::Null,
                },
            ),
        ).push(("op"@, JsonView::Number(text::decimal(1)))),
    )
}

fn heartbeat_payload(sequence: Option<u64>) -> (r: Json)
    ensures
        r@ == heartbeat(sequence),
{
    let d = match sequence {
        Some(sequence) => Json::unsigned(sequence),
        None => Json::Null,
    };
    ObjectBuilder::new().with("d", d).number("op", 1).build()
}

/// A message that the gateway heard.
#[derive(Clone, Debug, PartialEq, Eq)]
pub struct DiscordMessage {
    pub channel_id: u64,
    pub author_id: u64,
    pub content: String,
}

/// What a message stands for.
pub struct MessageView {
    pub channel_id: u64,
    pub author_id: u64,
    pub content: Seq<char>,
}

impl DiscordMessage {
    /// The message that `self` stands for.
    pub open spec fn view(&self) -> MessageView {
        MessageView {
            channel_id: self.channel_id,
            author_id: self.author_id,
            content: self.content@,
        }
    }
}

/// An open connection: the session that it serves, the number of what came last, whether the last
/// heartbeat was answered, and when the next is due.
#[derive(Debug, PartialEq, Eq)]
pub struct DiscordConnection {
    pub session: Option<DiscordSession>,
    pub sequence: Option<u64>,
    pub acknowledged: bool,
    pub next_heartbeat: u64,
    pub interval: u64,
}

/// What a connection stands for.
pub struct ConnectionView {
    pub session: Option<SessionView>,
    pub sequence: Option<u64>,
    pub acknowledged: bool,
    pub next_heartbeat: u64,
    pub interval: u64,
}

/// Whether the session has the number of what came last.
pub open spec fn in_step(connection: ConnectionView) -> bool {
    connection.session matches Some(session) ==> connection.sequence == Some(session.sequence)
}

/// A time later by an interval.
pub open spec fn later(now: u64, interval: u64) -> u64 {
    if now + interval > u64::MAX {
        u64::MAX
    } else {
        (now + interval) as u64
    }
}

fn time_after(now: u64, interval: u64) -> (r: u64)
    ensures
        r == later(now, interval),
{
    if interval > u64::MAX - now {
        u64::MAX
    } else {
        now + interval
    }
}

/// What a connection does next, before anything is read.
#[derive(Debug, PartialEq, Eq)]
pub enum Tick {
    /// It reads.
    Read,
    /// It sends a heartbeat.
    Heartbeat(Json),
    Leave(GatewayControl),
}

/// What a connection does with what it has read.
#[derive(Debug, PartialEq, Eq)]
pub enum Step {
    /// It goes on.
    Continue,
    /// It hands a message on.
    Deliver(DiscordMessage),
    /// It sends a heartbeat.
    Heartbeat(Json),
    Leave(GatewayControl),
}

/// What a step stands for.
pub enum StepView {
    Continue,
    Deliver(MessageView),
    Heartbeat(JsonView),
    Leave(ControlView),
}

/// Whether a step is what it should be.
pub open spec fn step_is(step: Step, wanted: StepView) -> bool {
    match wanted {
        StepView::Continue => step is Continue,
        StepView::Deliver(message) => step matches Step::Deliver(given) && given@ == message,
        StepView::Heartbeat(payload) => step matches Step::Heartbeat(given) && given@ == payload,
        StepView::Leave(wanted) => step matches Step::Leave(control) && control_is(
            control,
            wanted,
        ),
    }
}

/// The connection after the number of a payload was noted.
pub open spec fn numbered(connection: ConnectionView, s: Option<u64>) -> ConnectionView {
    match s {
        Some(value) => ConnectionView {
            sequence: Some(value),
            session: match connection.session {
                Some(session) => Some(SessionView { sequence: value, ..session }),
                None => None,
            },
            ..connection
        },
        None => connection,
    }
}

/// The fields of the news that a session is there, in the order in which a list tells them.
pub open spec fn ready_names() -> Seq<Seq<char>> {
    text::str_views(seq!["session_id", "resume_gateway_url"])
}

/// The fields of a message, in the order in which a list tells them.
pub open spec fn message_names() -> Seq<Seq<char>> {
    text::str_views(seq!["channel_id", "author", "content"])
}

/// The fields of an author, in the order in which a list tells them.
pub open spec fn author_names() -> Seq<Seq<char>> {
    text::str_views(seq!["id", "bot"])
}

/// What follows on the news that a session is there.
pub open spec fn after_ready(connection: ConnectionView, d: JsonView) -> (
    ConnectionView,
    StepView,
) {
    let d = json::listed(d, ready_names());
    match (
        json::text_in(json::member_of(d, "session_id"@)),
        json::text_in(json::member_of(d, "resume_gateway_url"@)),
        connection.sequence,
    ) {
        (Some(session_id), Some(resume_gateway_url), Some(sequence)) => (
            ConnectionView {
                session: Some(SessionView { session_id, resume_gateway_url, sequence }),
                ..connection
            },
            StepView::Continue,
        ),
        _ => (connection, StepView::Leave(invalid())),
    }
}

/// What follows on the news of a message: one of a bot is not heard, and one whose identifiers are
/// no numbers ends the connection.
pub open spec fn after_message(d: JsonView) -> StepView {
    let d = json::listed(d, message_names());
    let author = json::member_of(d, "author"@);
    let author_value = json::listed(author->Some_0, author_names());
    let bot = json::flag_in(json::member_of(author_value, "bot"@));
    match (
        json::text_in(json::member_of(d, "channel_id"@)),
        json::text_in(json::member_of(author_value, "id"@)),
        json::text_in(json::member_of(d, "content"@)),
    ) {
        (Some(channel), Some(writer), Some(content)) => if author is None || (!absent(
            author_value,
            "bot"@,
        ) && bot is None) {
            StepView::Leave(invalid())
        } else if bot == Some(true) {
            StepView::Continue
        } else {
            match (snowflake(channel), snowflake(writer)) {
                (Some(channel_id), Some(author_id)) => StepView::Deliver(
                    MessageView { channel_id, author_id, content },
                ),
                _ => StepView::Leave(
                    ControlView::Fatal("discord gateway returned an invalid snowflake"@),
                ),
            }
        },
        _ => StepView::Leave(invalid()),
    }
}

/// What follows on a payload.
pub open spec fn after_payload(connection: ConnectionView, payload: PayloadView) -> (
    ConnectionView,
    StepView,
) {
    let connection = numbered(connection, payload.s);
    if payload.op == 0 {
        if payload.t == Some("READY"@) {
            after_ready(connection, payload.d)
        } else if payload.t == Some("MESSAGE_CREATE"@) {
            (connection, after_message(payload.d))
        } else {
            (connection, StepView::Continue)
        }
    } else if payload.op == 1 {
        (connection, StepView::Heartbeat(heartbeat(connection.sequence)))
    } else if payload.op == 7 {
        (connection, StepView::Leave(ControlView::Resume))
    } else if payload.op == 9 {
        (
            connection,
            StepView::Leave(
                if payload.d == JsonView::Bool(true) {
                    ControlView::Resume
                } else {
                    ControlView::Reidentify
                },
            ),
        )
    } else if payload.op == 11 {
        (ConnectionView { acknowledged: true, ..connection }, StepView::Continue)
    } else {
        (connection, StepView::Continue)
    }
}

fn take_message(d: &Json) -> (r: Step)
    ensures
        step_is(r, after_message(d@)),
{
    let names = vec!["channel_id", "author", "content"];
    let own = vec!["id", "bot"];
    assert(text::str_views(names@) =~= message_names());
    assert(text::str_views(own@) =~= author_names());
    let d = d.listed(&names);
    let author = &match d.get("author") {
        Some(author) => author.listed(&own),
        None => {
            return Step::Leave(invalid_gateway_payload());
        },
    };
    match (d.text_member("channel_id"), author.text_member("id"), d.text_member("content")) {
        (Some(channel), Some(writer), Some(content)) => {
            let bot = author.flag_member("bot");
            if bot.is_none() && !is_absent(author, "bot") {
                return Step::Leave(invalid_gateway_payload());
            }
            if let Some(true) = bot {
                return Step::Continue;
            }
            let channel_id = match parse_snowflake(channel.as_str()) {
                Ok(id) => id,
                Err(error) => {
                    return Step::Leave(GatewayControl::Fatal(error));
                },
            };
            let author_id = match parse_snowflake(writer.as_str()) {
                Ok(id) => id,
                Err(error) => {
                    return Step::Leave(GatewayControl::Fatal(error));
                },
            };
            Step::Deliver(DiscordMessage { channel_id, author_id, content })
        },
        _ => Step::Leave(invalid_gateway_payload()),
    }
}

impl DiscordConnection {
    /// The connection that `self` stands for.
    pub open spec fn view(&self) -> ConnectionView {
        ConnectionView {
            session: session_view(self.session),
            sequence: self.sequence,
            acknowledged: self.acknowledged,
            next_heartbeat: self.next_heartbeat,
            interval: self.interval,
        }
    }

    /// A connection that was just greeted.
    pub fn open(
        session: Option<DiscordSession>,
        interval: u64,
        now: u64,
        jitter: u64,
    ) -> (r: DiscordConnection)
        ensures
            r@ == (ConnectionView {
                session: session_view(session),
                sequence: match session {
                    Some(session) => Some(session.sequence),
                    None => None,
                },
                acknowledged: true,
                next_heartbeat: later(now, jitter),
                interval,
            }),
            in_step(r@),
    {
        let sequence = match &session {
            Some(session) => Some(session.sequence),
            None => None,
        };
        DiscordConnection {
            session,
            sequence,
            acknowledged: true,
            next_heartbeat: time_after(now, jitter),
            interval,
        }
    }

    /// What the connection does next: it stops where it is told to; where a heartbeat is due it sends
    /// one, and ends where the last was not answered; else it reads.
    pub fn tick(&self, now: u64, stop: bool) -> (r: Tick)
        ensures
            if stop {
                r matches Tick::Leave(control) && control is Stop
            } else if now < self.next_heartbeat {
                r is Read
            } else if !self.acknowledged {
                r matches Tick::Leave(control) && control is Resume
            } else {
                r matches Tick::Heartbeat(payload) && payload@ == heartbeat(self.sequence)
            },
    {
        if stop {
            return Tick::Leave(GatewayControl::Stop);
        }
        if now < self.next_heartbeat {
            return Tick::Read;
        }
        if !self.acknowledged {
            return Tick::Leave(GatewayControl::Resume);
        }
        Tick::Heartbeat(heartbeat_payload(self.sequence))
    }

    /// Notes that a heartbeat was sent; one that was not ends the connection.
    pub fn note_heartbeat(&mut self, sent: bool, now: u64) -> (r: Option<GatewayControl>)
        ensures
            sent ==> r is None && final(self)@ == (ConnectionView {
                acknowledged: false,
                next_heartbeat: later(now, old(self).interval),
                ..old(self)@
            }),
            !sent ==> *final(self) == *old(self) && (r matches Some(control) && control is Resume),
    {
        if !sent {
            return Some(GatewayControl::Resume);
        }
        self.acknowledged = false;
        self.next_heartbeat = time_after(now, self.interval);
        None
    }

    fn note_number(&mut self, s: Option<u64>)
        ensures
            final(self)@ == numbered(old(self)@, s),
    {
        if let Some(value) = s {
            self.sequence = Some(value);
            let renumbered = match &self.session {
                Some(session) => Some(
                    DiscordSession {
                        session_id: session.session_id.clone(),
                        resume_gateway_url: session.resume_gateway_url.clone(),
                        sequence: value,
                    },
                ),
                None => None,
            };
            self.session = renumbered;
        }
    }

    fn take_ready(&mut self, d: &Json) -> (r: Step)
        ensures
            final(self)@ == after_ready(old(self)@, d@).0,
            step_is(r, after_ready(old(self)@, d@).1),
    {
        let names = vec!["session_id", "resume_gateway_url"];
        assert(text::str_views(names@) =~= ready_names());
        let d = d.listed(&names);
        match (
            d.text_member("session_id"),
            d.text_member("resume_gateway_url"),
            self.sequence,
        ) {
            (Some(session_id), Some(resume_gateway_url), Some(sequence)) => {
                self.session = Some(DiscordSession { session_id, resume_gateway_url, sequence });
                Step::Continue
            },
            _ => Step::Leave(invalid_gateway_payload()),
        }
    }

    /// Takes a payload, and says what follows.
    pub fn take_payload(&mut self, payload: GatewayPayload) -> (r: Step)
        ensures
            final(self)@ == after_payload(old(self)@, payload@).0,
            step_is(r, after_payload(old(self)@, payload@).1),
    {
        self.note_number(payload.s);
        if payload.op == 0 {
            if text::is_text(&payload.t, "READY") {
                self.take_ready(&payload.d)
            } else if text::is_text(&payload.t, "MESSAGE_CREATE") {
                take_message(&payload.d)
            } else {
                Step::Continue
            }
        } else if payload.op == 1 {
            Step::Heartbeat(heartbeat_payload(self.sequence))
        } else if payload.op == 7 {
            Step::Leave(GatewayControl::Resume)
        } else if payload.op == 9 {
            match payload.d {
                Json::Bool(true) => Step::Leave(GatewayControl::Resume),
                _ => Step::Leave(GatewayControl::Reidentify),
            }
        } else {
            if payload.op == 11 {
                self.acknowledged = true;
            }
            Step::Continue
        }
    }
}

/// The session after a connection ended: only one that is to begin anew is without it.
pub fn session_after(session: Option<DiscordSession>, control: &GatewayControl) -> (r: Option<
    DiscordSession,
>)
    ensures
        session_view(r) == if *control is Reidentify {
            None
        } else {
            session_view(session)
        },
{
    match control {
        GatewayControl::Reidentify => None,
        _ => session,
    }
}

/// Whatever came over a connection, the session that is taken up again tells the number of what came
/// last.
pub proof fn law_sessions_stay_in_step(connection: ConnectionView, payload: PayloadView)
    requires
        in_step(connection),
    ensures
        in_step(after_payload(connection, payload).0),
        payload.s matches Some(s) ==> after_payload(connection, payload).0.sequence == Some(s),
{
}

/// What a bot writes is not handed on.
pub proof fn law_bots_are_not_heard(connection: ConnectionView, payload: PayloadView)
    requires
        payload.op == 0,
        json::member_of(json::listed(payload.d, message_names()), "author"@) matches Some(author)
            && json::member_of(json::listed(author, author_names()), "bot"@) == Some(
            JsonView::Bool(true),
        ),
    ensures
        !(after_payload(connection, payload).1 is Deliver),
{
}

/// Only a session that the other end gave up is begun anew after a payload.
pub proof fn law_sessions_are_kept(connection: ConnectionView, payload: PayloadView)
    ensures
        after_payload(connection, payload).1 == StepView::Leave(ControlView::Reidentify) <==> (
        payload.op == 9 && payload.d != JsonView::Bool(true)),
{
}

/// The session of a channel.
#[derive(Debug, PartialEq, Eq)]
pub struct ChannelSession {
    pub channel_id: u64,
    pub session_id: String,
}

/// The gateway: whose messages it takes, and the sessions of their channels.
#[derive(Debug, PartialEq, Eq)]
pub struct DiscordGateway {
    pub config_path: Option<String>,
    pub owner_user_ids: Vec<u64>,
    pub sessions: Vec<ChannelSession>,
}

/// What a gateway stands for.
pub struct GatewayView {
    pub config_path: Option<Seq<char>>,
    pub owners: Seq<u64>,
    pub sessions: Seq<(u64, Seq<char>)>,
}

/// What sessions stand for.
pub open spec fn session_rows(sessions: Seq<ChannelSession>) -> Seq<(u64, Seq<char>)> {
    Seq::new(sessions.len(), |i: int| (sessions[i].channel_id, sessions[i].session_id@))
}

/// Whether a message is taken: it is an owner's, and not blank.
pub open spec fn is_taken(owners: Seq<u64>, message: MessageView) -> bool {
    owners.contains(message.author_id) && !text::is_blank(message.content)
}

/// What the daemon is asked for a text in a channel: to go on with its session, or to start one.
pub open spec fn order_of(gateway: GatewayView, channel_id: u64, text: Seq<char>) -> RequestView {
    match table::lookup(gateway.sessions, channel_id) {
        Some(session_id) => request::message_append_view(
            text,
            Some(session_id),
            gateway.config_path,
            false,
        ),
        None => request::run_start_view(text, gateway.config_path, false),
    }
}

impl DiscordGateway {
    /// The gateway that `self` stands for.
    pub open spec fn view(&self) -> GatewayView {
        GatewayView {
            config_path: text::opt_view(self.config_path),
            owners: self.owner_user_ids@,
            sessions: session_rows(self.sessions@),
        }
    }

    /// A gateway that has taken nothing yet.
    pub fn new(config_path: Option<String>, config: DiscordGatewayConfig) -> (r: DiscordGateway)
        ensures
            r@ == (GatewayView {
                config_path: text::opt_view(config_path),
                owners: config.owner_user_ids@,
                sessions: Seq::empty(),
            }),
    {
        let r = DiscordGateway {
            config_path,
            owner_user_ids: config.owner_user_ids,
            sessions: Vec::new(),
        };
        assert(session_rows(r.sessions@) =~= Seq::empty());
        r
    }

    /// Whether a message is taken.
    pub fn takes(&self, message: &DiscordMessage) -> (r: bool)
        ensures
            r == is_taken(self@.owners, message@),
    {
        let mut i: usize = 0;
        while i < self.owner_user_ids.len()
            invariant
                0 <= i <= self.owner_user_ids@.len(),
                forall|j: int| 0 <= j < i ==> self.owner_user_ids@[j] != message.author_id,
            decreases self.owner_user_ids@.len() - i,
        {
            if self.owner_user_ids[i] == message.author_id {
                return !text::blank(message.content.as_str());
            }
            i += 1;
        }
        false
    }

    fn session_index(&self, channel_id: u64) -> (r: usize)
        ensures
            r == table::position(self@.sessions, channel_id),
            r <= self.sessions@.len(),
    {
        let ghost rows = session_rows(self.sessions@);
        let mut i: usize = 0;
        while i < self.sessions.len()
            invariant
                0 <= i <= self.sessions@.len(),
                rows == session_rows(self.sessions@),
                forall|j: int| 0 <= j < i ==> (#[trigger] rows[j]).0 != channel_id,
            decreases self.sessions@.len() - i,
        {
            if self.sessions[i].channel_id == channel_id {
                proof {
                    table::lemma_position(rows, channel_id, i as int);
                }
                return i;
            }
            assert(rows[i as int].0 != channel_id);
            i += 1;
        }
        proof {
            table::lemma_position(rows, channel_id, rows.len() as int);
        }
        i
    }

    /// What the daemon is asked for a text in a channel.
    pub fn order(&self, channel_id: u64, text: String) -> (r: ClientRequest)
        ensures
            r@ == order_of(self@, channel_id, text@),
    {
        let index = self.session_index(channel_id);
        let config_path = text::copy_option(&self.config_path);
        if index < self.sessions.len() {
            let session_id = self.sessions[index].session_id.clone();
            ClientRequest::message_append(text, Some(session_id), config_path, false)
        } else {
            ClientRequest::run_start(text, config_path, false)
        }
    }

    /// Notes the session of a channel.
    pub fn note_session(&mut self, channel_id: u64, session_id: &str)
        ensures
            final(self)@ == (GatewayView {
                sessions: table::with_row(old(self)@.sessions, channel_id, session_id@),
                ..old(self)@
            }),
    {
        let ghost rows = session_rows(self.sessions@);
        let index = self.session_index(channel_id);
        let row = ChannelSession { channel_id, session_id: session_id.to_owned() };
        if index < self.sessions.len() {
            self.sessions.set(index, row);
        } else {
            self.sessions.push(row);
        }
        assert(session_rows(self.sessions@) =~= table::with_row(rows, channel_id, session_id@));
    }
}

/// A channel goes on with the session that was noted for it, and the others go on with theirs.
pub proof fn law_channels_continue(
    gateway: GatewayView,
    channel_id: u64,
    session_id: Seq<char>,
    other: u64,
    text: Seq<char>,
)
    ensures
        ({
            let after = GatewayView {
                sessions: table::with_row(gateway.sessions, channel_id, session_id),
                ..gateway
            };
            &&& order_of(after, channel_id, text) == request::message_append_view(
                text,
                Some(session_id),
                gateway.config_path,
                false,
            )
            &&& other != channel_id ==> order_of(after, other, text) == order_of(
                gateway,
                other,
                text,
            )
        }),
{
    table::law_reads_what_was_written(gateway.sessions, channel_id, session_id, channel_id);
    table::law_reads_what_was_written(gateway.sessions, channel_id, session_id, other);
}

/// Cuts an answer into messages.
pub fn discord_chunks(text: &str) -> (r: Vec<String>)
    ensures
        text::views(r@) == gateway::chunks_of(text@, DISCORD_MESSAGE_LIMIT as nat),
{
    chunks(text, DISCORD_MESSAGE_LIMIT)
}

/// A message as it is sent: it mentions nobody.
pub fn message_body(content: &str) -> (r: Json)
    ensures
        r@ == JsonView::Object(
            json::no_members().push(("content"@, JsonView::Text(content@))).push(
                (
                    "allowed_mentions"@,
                    JsonView::Object(
                        json::no_members().push(("parse"@, JsonView::Array(Seq::empty()))),
                    ),
                ),
            ),
        ),
{
    let nobody: Vec<Json> = Vec::new();
    assert(json::json_views(nobody@) =~= Seq::empty());
    let mentions = ObjectBuilder::new().with("parse", Json::array(nobody)).build();
    ObjectBuilder::new().text("content", content).with("allowed_mentions", mentions).build()
}

/// The address that messages of a channel are sent to.
pub fn messages_url(api_base: &str, channel_id: u64) -> (r: String)
    ensures
        r@ == gateway::without_slashes(api_base@) + "/channels/"@ + text::decimal(
            channel_id as nat,
        ) + "/messages"@,
{
    text::text4(
        trimmed_base(api_base).as_str(),
        "/channels/",
        text::decimal_u64(channel_id).as_str(),
        "/messages",
    )
}

/// The address at which the gateway is found.
pub fn discovery_url(api_base: &str) -> (r: String)
    ensures
        r@ == gateway::without_slashes(api_base@) + "/gateway/bot"@,
{
    text::text2(trimmed_base(api_base).as_str(), "/gateway/bot")
}

/// How the gateway says who it is in a request.
pub fn authorization(token: &str) -> (r: String)
    ensures
        r@ == "Bot "@ + token@,
{
    text::text2("Bot ", token)
}

/// What is taken of the answer to a question for the gateway's address.
pub open spec fn discovery_shape() -> ShapeView {
    ShapeView::Record(seq![("url"@, ShapeView::Any)])
}

/// The field of that answer.
pub open spec fn discovery_names() -> Seq<Seq<char>> {
    text::str_views(seq!["url"])
}

/// The gateway's address in an answer, or what is wrong with it.
pub open spec fn discovered(body: Seq<char>) -> Result<Seq<char>, Seq<char>> {
    match shape::shaped(discovery_shape(), body) {
        Err(_) => Err("discord gateway discovery returned invalid JSON"@),
        Ok(value) => match json::text_in(
            json::member_of(json::listed(value, discovery_names()), "url"@),
        ) {
            None => Err("discord gateway discovery returned invalid JSON"@),
            Some(url) => if url.len() == 0 {
                Err("discord gateway discovery returned an empty URL"@)
            } else {
                Ok(url)
            },
        },
    }
}

/// The gateway's address in an answer.
pub fn read_discovery(body: &str) -> (r: AppResult<String>)
    ensures
        match discovered(body@) {
            Ok(url) => r matches Ok(given) && given@ == url,
            Err(message) => r matches Err(AppError::Provider(detail)) && detail@ == message,
        },
{
    let invalid = "discord gateway discovery returned invalid JSON";
    let fields = vec![shape::whole("url")];
    assert(shape::field_views(fields@) =~= discovery_shape()->Record_0);
    let names = vec!["url"];
    assert(text::str_views(names@) =~= discovery_names());
    match shape::record(fields).read(body) {
        Err(_) => Err(AppError::Provider(invalid.to_owned())),
        Ok(value) => match value.listed(&names).text_member("url") {
            None => Err(AppError::Provider(invalid.to_owned())),
            Some(url) => if url.as_str().unicode_len() == 0 {
                Err(
                    AppError::Provider(
                        "discord gateway discovery returned an empty URL".to_owned(),
                    ),
                )
            } else {
                Ok(url)
            },
        },
    }
}

/// A connection that was closed is given up for good after a code that no new attempt can mend, begun anew
/// after one that says that the session is gone, and resumed after any other.
pub proof fn law_closed_connections_are_resumed(code: Option<u16>)
    ensures
        closed_with(code) is Fatal <==> (code matches Some(n) && (n == 4004 || 4010 <= n <= 4014)),
        closed_with(code) is Reidentify <==> (code matches Some(n) && (n == 4007 || n == 4009)),
        !(closed_with(code) is Stop),
{
}

/// A payload tells its kind, its data, its number and its name; a kind is told, and fits in a byte.
pub proof fn law_payloads_are_read_by_name(value: JsonView)
    ensures
        payload_in(value) matches Some(payload) ==> {
            &&& json::u64_in(json::member_of(value, "op"@)) == Some(payload.op as u64)
            &&& json::member_of(value, "d"@) matches Some(d) ==> payload.d == d
            &&& json::member_of(value, "d"@) is None ==> payload.d == JsonView::Null
            &&& payload.s == json::u64_in(json::member_of(value, "s"@))
            &&& payload.t == json::text_in(json::member_of(value, "t"@))
        },
        json::u64_in(json::member_of(value, "op"@)) is None ==> payload_in(value) is None,
{
}

/// Only a greeting that tells a time between heartbeats is one.
pub proof fn law_greetings_tell_the_interval(payload: PayloadView)
    ensures
        greeted(payload) matches Some(interval) ==> payload.op == 10 && interval > 0 && json::u64_in(
            json::member_of(payload.d, "heartbeat_interval"@),
        ) == Some(interval),
        payload.op != 10 ==> greeted(payload) is None,
{
}

/// A session that is known is resumed, with its name and the number of what was seen last, and at its own
/// address; without one the gateway identifies itself, at the first address. Both tell the token.
pub proof fn law_known_sessions_are_resumed(
    token: Seq<char>,
    session: SessionView,
    os: Seq<char>,
    initial_url: Seq<char>,
)
    ensures
        address_of(Some(session), initial_url) == session.resume_gateway_url,
        address_of(None, initial_url) == initial_url,
        opening(token, Some(session), os) matches JsonView::Object(m) && m.len() == 2 && m[1] == (
            "op"@,
            JsonView::Number(text::decimal(6)),
        ) && m[0].0 == "d"@ && (m[0].1 matches JsonView::Object(d) && d.len() == 3 && d[0] == (
            "seq"@,
            JsonView::Number(text::decimal(session.sequence as nat)),
        ) && d[1] == ("session_id"@, JsonView::Text(session.session_id)) && d[2] == (
            "token"@,
            JsonView::Text(token),
        )),
        opening(token, None, os) matches JsonView::Object(m) && m.len() == 2 && m[1] == (
            "op"@,
            JsonView::Number(text::decimal(2)),
        ) && m[0].0 == "d"@ && (m[0].1 matches JsonView::Object(d) && d.len() == 3 && d[0] == (
            "intents"@,
            JsonView::Number(text::decimal(37376)),
        ) && d[2] == ("token"@, JsonView::Text(token))),
{
    let m = opening(token, Some(session), os)->Object_0;
    let d = m[0].1->Object_0;
    assert(m[1] == ("op"@, JsonView::Number(text::decimal(6))));
    assert(d[0].0 == "seq"@ && d[1].0 == "session_id"@ && d[2].0 == "token"@);
    let n = opening(token, None, os)->Object_0;
    let e = n[0].1->Object_0;
    assert(n[1] == ("op"@, JsonView::Number(text::decimal(2))));
    assert(e[0].0 == "intents"@ && e[2].0 == "token"@);
}

/// A heartbeat tells the number of what was seen last, or that nothing was.
pub proof fn law_heartbeats_tell_what_was_seen(sequence: Option<u64>)
    ensures
        heartbeat(sequence) matches JsonView::Object(m) && m.len() == 2 && m[0] == (
            "d"@,
            match sequence {
                Some(n) => JsonView::Number(text::decimal(n as nat)),
                None => JsonView::Null,
            },
        ) && m[1] == ("op"@, JsonView::Number(text::decimal(1))),
{
    let m = heartbeat(sequence)->Object_0;
    assert(m[0].0 == "d"@);
    assert(m[1] == ("op"@, JsonView::Number(text::decimal(1))));
}

/// Each kind of payload has its own effect: a message is delivered, a request for a heartbeat is answered
/// with one, an acknowledgement is noted, a request to reconnect and an invalid session lead away, and
/// others only move the number.
pub proof fn law_payloads_have_their_effect(connection: ConnectionView, payload: PayloadView)
    ensures
        ({
            let (after, step) = after_payload(connection, payload);
            let seen = match payload.s {
                Some(s) => Some(s),
                None => connection.sequence,
            };
            &&& after.sequence == seen
            &&& step is Deliver ==> payload.op == 0 && payload.t == Some("MESSAGE_CREATE"@)
            &&& payload.op == 1 ==> step == StepView::Heartbeat(heartbeat(seen))
            &&& step is Heartbeat ==> payload.op == 1
            &&& payload.op == 7 ==> step == StepView::Leave(ControlView::Resume)
            &&& payload.op == 9 && payload.d == JsonView::Bool(true) ==> step == StepView::Leave(
                ControlView::Resume,
            )
            &&& payload.op == 11 ==> step is Continue && after.acknowledged
            &&& payload.op != 11 ==> after.acknowledged == connection.acknowledged
            &&& after.next_heartbeat == connection.next_heartbeat && after.interval
                == connection.interval
            &&& payload.op == 0 && payload.t != Some("READY"@) && payload.t != Some(
                "MESSAGE_CREATE"@,
            ) ==> step is Continue
        }),
{
    reveal_strlit("READY");
    reveal_strlit("MESSAGE_CREATE");
    assert("READY"@.len() == 5 && "MESSAGE_CREATE"@.len() == 14);
}

/// A session begins with its name, the address to resume at, and the number of the payload that told
/// them.
pub proof fn law_sessions_begin_when_ready(connection: ConnectionView, payload: PayloadView, s: u64)
    requires
        payload.op == 0,
        payload.t == Some("READY"@),
        payload.s == Some(s),
        payload.d is Object,
        json::text_in(json::member_of(payload.d, "session_id"@)) is Some,
        json::text_in(json::member_of(payload.d, "resume_gateway_url"@)) is Some,
    ensures
        ({
            let (after, step) = after_payload(connection, payload);
            &&& step is Continue
            &&& after.session matches Some(session) && session.sequence == s && Some(
                session.session_id,
            ) == json::text_in(json::member_of(payload.d, "session_id"@)) && Some(
                session.resume_gateway_url,
            ) == json::text_in(json::member_of(payload.d, "resume_gateway_url"@))
        }),
{
}

/// A message is delivered with its channel, its author and its text as they were told.
pub proof fn law_messages_are_delivered_as_told(d: JsonView, author: JsonView)
    requires
        d is Object,
        json::member_of(d, "author"@) == Some(author),
        author is Object,
    ensures
        after_message(d) matches StepView::Deliver(message) ==> {
            &&& json::text_in(json::member_of(d, "content"@)) == Some(message.content)
            &&& json::text_in(json::member_of(d, "channel_id"@)) matches Some(channel) && snowflake(
                channel,
            ) == Some(message.channel_id)
            &&& json::text_in(json::member_of(author, "id"@)) matches Some(writer) && snowflake(
                writer,
            ) == Some(message.author_id)
            &&& json::flag_in(json::member_of(author, "bot"@)) != Some(true)
        },
{
}

/// A message is taken exactly where an owner wrote it and it is not blank; in a channel without a session
/// it starts one.
pub proof fn law_owners_are_taken_at_their_word(
    gateway: GatewayView,
    message: MessageView,
)
    ensures
        is_taken(gateway.owners, message) <==> gateway.owners.contains(message.author_id)
            && !text::is_blank(message.content),
        table::lookup(gateway.sessions, message.channel_id) is None ==> order_of(
            gateway,
            message.channel_id,
            message.content,
        ) == request::run_start_view(message.content, gateway.config_path, false),
{
}

/// The address that was found is the one that was told, and is not empty.
pub proof fn law_addresses_are_found(body: Seq<char>, value: JsonView)
    requires
        shape::shaped(discovery_shape(), body) == Ok::<JsonView, Seq<char>>(value),
        value is Object,
    ensures
        discovered(body) matches Ok(url) ==> url.len() > 0 && json::text_in(
            json::member_of(value, "url"@),
        ) == Some(url),
        discovered(body) is Ok <==> (json::text_in(json::member_of(value, "url"@)) matches Some(url)
            && url.len() > 0),
{
}

/// A later time lies behind by the interval, as far as the clock goes.
pub proof fn law_later_times_are_added(now: u64, interval: u64)
    ensures
        now + interval <= u64::MAX ==> later(now, interval) == now + interval,
        now + interval > u64::MAX ==> later(now, interval) == u64::MAX,
{
}

/// What is read from the socket is a payload, nothing, or a reason to leave: a ping and a silence are
/// nothing, a close leaves by its code, a break is resumed, and what holds no payload is invalid.
pub proof fn law_sockets_are_read(read: SocketRead)
    ensures
        read is Ping || read is Idle ==> payload_read(read) == Ok::<
            Option<PayloadView>,
            ControlView,
        >(None),
        read matches SocketRead::Close(code) ==> payload_read(read) == Err::<
            Option<PayloadView>,
            ControlView,
        >(closed_with(code)),
        read is Broken ==> payload_read(read) == Err::<Option<PayloadView>, ControlView>(
            ControlView::Resume,
        ),
        read is Other ==> payload_read(read) matches Err(ControlView::Fatal(_)),
        read is Text ==> (payload_read(read) matches Ok(Some(_))) || (payload_read(read) matches Err(
            ControlView::Fatal(_),
        )),
{
}

} // verus!
