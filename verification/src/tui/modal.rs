//! What the terminal interface makes of the events of a run.
use crate::json;
use crate::json::{Json, JsonView};
use crate::text;
use crate::tui::state::{EventLineView, LiveEventKind, LiveEventLine};
use vstd::prelude::*;

verus! {

/// An approval that a run waits for, as it is shown.
#[derive(Debug, PartialEq, Eq)]
pub struct ApprovalModalView {
    pub run_id: String,
    pub tool_call_id: String,
    pub tool_name: String,
    pub effect: String,
    pub reason: String,
    pub input_preview: String,
    pub approval_preview: Option<String>,
    pub diff_preview: Option<String>,
}

/// What a shown approval stands for.
pub struct ModalView {
    pub run_id: Seq<char>,
    pub tool_call_id: Seq<char>,
    pub tool_name: Seq<char>,
    pub effect: Seq<char>,
    pub reason: Seq<char>,
    pub input_preview: Seq<char>,
    pub approval_preview: Option<Seq<char>>,
    pub diff_preview: Option<Seq<char>>,
}

/// What an optional shown approval stands for.
pub open spec fn opt_modal(modal: Option<ApprovalModalView>) -> Option<ModalView> {
    match modal {
        Some(modal) => Some(modal@),
        None => None,
    }
}

impl Clone for ApprovalModalView {
    fn clone(&self) -> (r: ApprovalModalView)
        ensures
            r == *self,
    {
        ApprovalModalView {
            run_id: self.run_id.clone(),
            tool_call_id: self.tool_call_id.clone(),
            tool_name: self.tool_name.clone(),
            effect: self.effect.clone(),
            reason: self.reason.clone(),
            input_preview: self.input_preview.clone(),
            approval_preview: text::copy_option(&self.approval_preview),
            diff_preview: text::copy_option(&self.diff_preview),
        }
    }
}

impl ApprovalModalView {
    /// The shown approval that `self` stands for.
    pub open spec fn view(&self) -> ModalView {
        ModalView {
            run_id: self.run_id@,
            tool_call_id: self.tool_call_id@,
            tool_name: self.tool_name@,
            effect: self.effect@,
            reason: self.reason@,
            input_preview: self.input_preview@,
            approval_preview: text::opt_view(self.approval_preview),
            diff_preview: text::opt_view(self.diff_preview),
        }
    }
}

/// The event itself, without its offset.
pub open spec fn inner_event(value: JsonView) -> JsonView {
    match json::member_of(value, "event"@) {
        Some(event) => event,
        None => value,
    }
}

fn inner(value: &Json) -> (r: &Json)
    ensures
        r@ == inner_event(value@),
{
    match value.get("event") {
        Some(event) => event,
        None => value,
    }
}

/// The text of a member.
pub open spec fn member_text(value: JsonView, name: Seq<char>) -> Option<Seq<char>> {
    json::text_in(json::member_of(value, name))
}

/// A text, or another in its place.
pub open spec fn or_text(text: Option<Seq<char>>, other: Seq<char>) -> Seq<char> {
    match text {
        Some(text) => text,
        None => other,
    }
}

fn text_or(text: Option<String>, other: &str) -> (r: String)
    ensures
        r@ == or_text(text::opt_view(text), other@),
{
    match text {
        Some(text) => text,
        None => other.to_owned(),
    }
}

/// The approval that an event asks for.
pub open spec fn approval_in(value: JsonView, input_preview: Option<Seq<char>>) -> Option<
    ModalView,
> {
    let event = inner_event(value);
    let run_id = member_text(event, "run_id"@);
    let call_id = member_text(event, "tool_call_id"@);
    let tool_name = member_text(event, "tool_name"@);
    if member_text(event, "kind"@) == Some("approval_requested"@) && run_id is Some && call_id
        is Some && tool_name is Some {
        Some(
            ModalView {
                run_id: run_id->Some_0,
                tool_call_id: call_id->Some_0,
                tool_name: tool_name->Some_0,
                effect: or_text(member_text(event, "effect"@), "unknown effect"@),
                reason: or_text(member_text(event, "reason"@), "approval required"@),
                input_preview: or_text(input_preview, "input preview unavailable"@),
                approval_preview: member_text(event, "approval_preview"@),
                diff_preview: member_text(event, "diff_preview"@),
            },
        )
    } else {
        None
    }
}

/// The approval that an event asks for, with what is known of the input.
pub fn approval_from_event(value: &Json, input_preview: Option<String>) -> (r: Option<
    ApprovalModalView,
>)
    ensures
        opt_modal(r) == approval_in(value@, text::opt_view(input_preview)),
{
    let event = inner(value);
    if !text::is_text(&event.text_member("kind"), "approval_requested") {
        return None;
    }
    match (
        event.text_member("run_id"),
        event.text_member("tool_call_id"),
        event.text_member("tool_name"),
    ) {
        (Some(run_id), Some(tool_call_id), Some(tool_name)) => Some(
            ApprovalModalView {
                run_id,
                tool_call_id,
                tool_name,
                effect: text_or(event.text_member("effect"), "unknown effect"),
                reason: text_or(event.text_member("reason"), "approval required"),
                input_preview: text_or(input_preview, "input preview unavailable"),
                approval_preview: event.text_member("approval_preview"),
                diff_preview: event.text_member("diff_preview"),
            },
        ),
        _ => None,
    }
}

/// The names that lead to the kind of a recorded event.
pub open spec fn event_name_path() -> Seq<Seq<char>> {
    seq!["record"@, "event"@, "event"@]
}

/// The names that lead to a member of a proposed call.
pub open spec fn call_path(name: Seq<char>) -> Seq<Seq<char>> {
    seq!["record"@, "event"@, "call"@, name]
}

fn event_name(event: &Json) -> (r: Option<String>)
    ensures
        text::opt_view(r) == json::text_in(json::at_path(event@, event_name_path())),
{
    let path = vec!["record", "event", "event"];
    assert(Seq::new(path@.len(), |i: int| path@[i]@) =~= event_name_path());
    event.text_at(&path)
}

fn call_member<'a>(event: &'a Json, name: &str) -> (r: Option<&'a Json>)
    ensures
        (match r {
            Some(value) => Some(value@),
            None => None,
        }) == json::at_path(event@, call_path(name@)),
{
    let path = vec!["record", "event", "call", name];
    assert(Seq::new(path@.len(), |i: int| path@[i]@) =~= call_path(name@));
    event.at(&path)
}

/// An input as it is shown: indented, and cut where it is long.
pub open spec fn shown_input(input: JsonView) -> Seq<char> {
    text::clipped(
        or_text(json::json_indented(json::json_text(input)), "input preview unavailable"@),
        1200,
        "\n... truncated"@,
    )
}

/// The call that an event proposes, and its input as it is shown.
pub open spec fn proposed_input(value: JsonView) -> Option<(Seq<char>, Seq<char>)> {
    let event = inner_event(value);
    let call_id = json::text_in(json::at_path(event, call_path("id"@)));
    let input = json::at_path(event, call_path("input"@));
    if member_text(event, "kind"@) == Some("ledger"@) && json::text_in(
        json::at_path(event, event_name_path()),
    ) == Some("tool_call_proposed"@) && call_id is Some && input is Some {
        Some((call_id->Some_0, shown_input(input->Some_0)))
    } else {
        None
    }
}

/// The call that an event proposes, and its input as it is shown.
pub fn tool_input_preview_from_event(value: &Json) -> (r: Option<(String, String)>)
    ensures
        (match r {
            Some(pair) => Some((pair.0@, pair.1@)),
            None => None,
        }) == proposed_input(value@),
{
    let event = inner(value);
    if !text::is_text(&event.text_member("kind"), "ledger") || !text::is_text(
        &event_name(event),
        "tool_call_proposed",
    ) {
        return None;
    }
    let call_id = match call_member(event, "id") {
        Some(id) => match id.as_str() {
            Some(id) => id.to_owned(),
            None => {
                return None;
            },
        },
        None => {
            return None;
        },
    };
    match call_member(event, "input") {
        Some(input) => {
            let preview = text_or(
                json::indented(input.render().as_str()),
                "input preview unavailable",
            );
            Some((call_id, text::clip(preview.as_str(), 1200, "\n... truncated")))
        },
        None => None,
    }
}

/// A recorded event in a few words.
pub open spec fn ledger_line(event: JsonView) -> Seq<char> {
    let name = or_text(json::text_in(json::at_path(event, event_name_path())), "ledger event"@);
    if name == "model_responded"@ {
        "assistant response"@
    } else if name == "tool_call_proposed"@ {
        "tool proposed "@ + or_text(
            json::text_in(json::at_path(event, call_path("tool"@))),
            "tool"@,
        )
    } else if name == "tool_finished"@ {
        "tool finished"@
    } else if name == "run_finished"@ {
        "run finished"@
    } else if name == "run_failed"@ {
        "run failed"@
    } else {
        text::replaced(name, '_', ' ')
    }
}

fn ledger_event_line(event: &Json) -> (r: String)
    ensures
        r@ == ledger_line(event@),
{
    let name = text_or(event_name(event), "ledger event");
    let name = name.as_str();
    if text::same_text(name, "model_responded") {
        "assistant response".to_owned()
    } else if text::same_text(name, "tool_call_proposed") {
        let tool = match call_member(event, "tool") {
            Some(tool) => match tool.as_str() {
                Some(tool) => tool.to_owned(),
                None => "tool".to_owned(),
            },
            None => "tool".to_owned(),
        };
        text::text2("tool proposed ", tool.as_str())
    } else if text::same_text(name, "tool_finished") {
        "tool finished".to_owned()
    } else if text::same_text(name, "run_finished") {
        "run finished".to_owned()
    } else if text::same_text(name, "run_failed") {
        "run failed".to_owned()
    } else {
        text::replace_char(name, '_', ' ')
    }
}

/// An event in a few words.
pub open spec fn line_text(value: JsonView) -> Seq<char> {
    let event = inner_event(value);
    match member_text(event, "kind"@) {
        Some(kind) => if kind == "ledger"@ {
            ledger_line(event)
        } else if kind == "approval_requested"@ {
            "approval pending "@ + or_text(member_text(event, "tool_name"@), "unknown tool"@)
                + " ("@ + or_text(member_text(event, "effect"@), "unknown effect"@) + ")"@
        } else {
            kind
        },
        None => json::json_text(event),
    }
}

/// An event as a line.
pub fn live_event_line(value: &Json) -> (r: LiveEventLine)
    ensures
        r@ == (EventLineView {
            offset: json::u64_in(json::member_of(value@, "offset"@)),
            kind: LiveEventKind::Status,
            text: line_text(value@),
        }),
{
    let offset = value.number_member("offset");
    let event = inner(value);
    let text = match event.text_member("kind") {
        Some(kind) => if text::same_text(kind.as_str(), "ledger") {
            ledger_event_line(event)
        } else if text::same_text(kind.as_str(), "approval_requested") {
            let mut line = text::text4(
                "approval pending ",
                text_or(event.text_member("tool_name"), "unknown tool").as_str(),
                " (",
                text_or(event.text_member("effect"), "unknown effect").as_str(),
            );
            line.append(")");
            line
        } else {
            kind
        },
        None => event.render(),
    };
    LiveEventLine::new(offset, text.as_str())
}

/// An approval is shown exactly for an event that asks for one and names its run, its call and its tool;
/// it shows just those.
pub proof fn law_approvals_are_shown_as_asked(value: JsonView, input_preview: Option<Seq<char>>)
    ensures
        ({
            let event = match json::member_of(value, "event"@) {
                Some(event) => event,
                None => value,
            };
            let told = |name: Seq<char>| json::text_in(json::member_of(event, name));
            &&& approval_in(value, input_preview) is Some <==> told("kind"@) == Some(
                "approval_requested"@,
            ) && told("run_id"@) is Some && told("tool_call_id"@) is Some && told("tool_name"@)
                is Some
            &&& approval_in(value, input_preview) matches Some(modal) ==> {
                &&& told("run_id"@) == Some(modal.run_id)
                &&& told("tool_call_id"@) == Some(modal.tool_call_id)
                &&& told("tool_name"@) == Some(modal.tool_name)
                &&& told("effect"@) matches Some(effect) ==> modal.effect == effect
                &&& told("reason"@) matches Some(reason) ==> modal.reason == reason
                &&& told("approval_preview"@) == modal.approval_preview
                &&& told("diff_preview"@) == modal.diff_preview
                &&& input_preview matches Some(preview) ==> modal.input_preview == preview
            }
        }),
{
}

/// What a call is proposed with is shown under the call's own id, and only for a recorded proposal.
pub proof fn law_inputs_are_shown_for_their_call(value: JsonView)
    ensures
        ({
            let event = match json::member_of(value, "event"@) {
                Some(event) => event,
                None => value,
            };
            proposed_input(value) matches Some((call_id, shown)) ==> {
                &&& json::text_in(json::member_of(event, "kind"@)) == Some("ledger"@)
                &&& json::text_in(json::at_path(event, seq!["record"@, "event"@, "event"@])) == Some(
                    "tool_call_proposed"@,
                )
                &&& json::text_in(json::at_path(event, seq!["record"@, "event"@, "call"@, "id"@]))
                    == Some(call_id)
                &&& shown.len() <= 1214
            }
        }),
{
    reveal_strlit("\n... truncated");
}

/// An event is told in one line: a recorded one by its name, a request for approval with its tool and
/// what it may do, and any other by its kind.
pub proof fn law_events_are_told_in_words(value: JsonView, kind: Seq<char>)
    requires
        json::member_of(value, "event"@) is None,
        json::text_in(json::member_of(value, "kind"@)) == Some(kind),
    ensures
        kind == "ledger"@ ==> line_text(value) == ledger_line(value),
        kind == "approval_requested"@ ==> (json::text_in(
            json::member_of(value, "tool_name"@),
        ) matches Some(tool) ==> (json::text_in(json::member_of(value, "effect"@)) matches Some(
            effect,
        ) ==> line_text(value) == "approval pending "@ + tool + " ("@ + effect + ")"@)),
        kind != "ledger"@ && kind != "approval_requested"@ ==> line_text(value) == kind,
{
    reveal_strlit("ledger");
    reveal_strlit("approval_requested");
    assert("ledger"@.len() == 6 && "approval_requested"@.len() == 18);
}

/// A recorded event is told by its name; a failure is never told as an end that went well.
pub proof fn law_recorded_events_are_told_by_name(event: JsonView, name: Seq<char>)
    requires
        json::text_in(json::at_path(event, seq!["record"@, "event"@, "event"@])) == Some(name),
    ensures
        name == "run_finished"@ ==> ledger_line(event) == "run finished"@,
        name == "run_failed"@ ==> ledger_line(event) == "run failed"@,
        name == "tool_finished"@ ==> ledger_line(event) == "tool finished"@,
        name == "model_responded"@ ==> ledger_line(event) == "assistant response"@,
        name == "tool_call_proposed"@ ==> (json::text_in(
            json::at_path(event, seq!["record"@, "event"@, "call"@, "tool"@]),
        ) matches Some(tool) ==> ledger_line(event) == "tool proposed "@ + tool),
        name != "run_finished"@ && name != "run_failed"@ && name != "tool_finished"@ && name
            != "model_responded"@ && name != "tool_call_proposed"@ ==> ledger_line(event)
            == text::replaced(name, '_', ' '),
{
    reveal_strlit("run_finished");
    reveal_strlit("run_failed");
    reveal_strlit("tool_finished");
    reveal_strlit("model_responded");
    reveal_strlit("tool_call_proposed");
    assert("run_finished"@.len() == 12 && "run_failed"@.len() == 10);
    assert("tool_finished"@.len() == 13 && "model_responded"@.len() == 15);
    assert("tool_call_proposed"@.len() == 18);
}

} // verus!
