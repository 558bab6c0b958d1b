//! JSON values: how they are built, read and written.
use crate::daemon::protocol;
use crate::daemon::protocol::RunStateName;
use crate::paths;
use crate::text;
use vstd::prelude::*;

verus! {

/// A JSON value. A number is held as the numeral that stands for it; the members of an object keep
/// their order.
#[derive(Debug, PartialEq, Eq)]
pub enum Json {
    Null,
    Bool(bool),
    Number(String),
    Text(String),
    Array(Vec<Json>),
    Object(Vec<Member>),
}

/// One member of a JSON object.
#[derive(Debug, PartialEq, Eq)]
pub struct Member {
    pub name: String,
    pub value: Json,
}

/// What a JSON value stands for.
pub enum JsonView {
    Null,
    Bool(bool),
    Number(Seq<char>),
    Text(Seq<char>),
    Array(Seq<JsonView>),
    Object(Seq<(Seq<char>, JsonView)>),
}

impl Json {
    /// The value that `self` stands for.
    pub open spec fn view(&self) -> JsonView
        decreases self,
    {
        match self {
            Json::Null => JsonView::Null,
            Json::Bool(b) => JsonView::Bool(*b),
            Json::Number(numeral) => JsonView::Number(numeral@),
            Json::Text(text) => JsonView::Text(text@),
            Json::Array(items) => JsonView::Array(
                Seq::new(
                    items@.len(),
                    |i: int|
                        if 0 <= i < items@.len() {
                            items@[i].view()
                        } else {
                            JsonView::Null
                        },
                ),
            ),
            Json::Object(members) => JsonView::Object(
                Seq::new(
                    members@.len(),
                    |i: int|
                        if 0 <= i < members@.len() {
                            (members@[i].name@, members@[i].value.view())
                        } else {
                            (Seq::empty(), JsonView::Null)
                        },
                ),
            ),
        }
    }
}

/// The values that the items of an array stand for.
pub open spec fn json_views(items: Seq<Json>) -> Seq<JsonView> {
    Seq::new(items.len(), |i: int| items[i]@)
}

/// The members that `members` stand for.
pub open spec fn member_views(members: Seq<Member>) -> Seq<(Seq<char>, JsonView)> {
    Seq::new(members.len(), |i: int| (members[i].name@, members[i].value@))
}

/// An array stands for what its items stand for.
pub proof fn lemma_array_view(items: Vec<Json>)
    ensures
        Json::Array(items)@ == JsonView::Array(json_views(items@)),
{
    assert(Json::Array(items)@->Array_0 =~= json_views(items@));
}

/// An object stands for what its members stand for.
pub proof fn lemma_object_view(members: Vec<Member>)
    ensures
        Json::Object(members)@ == JsonView::Object(member_views(members@)),
{
    assert(Json::Object(members)@->Object_0 =~= member_views(members@));
}

/// How a character is written between quotes: quotes, backslashes and the control characters of ASCII
/// are escaped, by a letter where there is one, and else by their number.
pub open spec fn escaped(c: char) -> Seq<char> {
    if c == '"' || c == '\\' {
        seq!['\\', c]
    } else if c == '\n' {
        seq!['\\', 'n']
    } else if c == '\r' {
        seq!['\\', 'r']
    } else if c == '\t' {
        seq!['\\', 't']
    } else if c as u32 == 8 {
        seq!['\\', 'b']
    } else if c as u32 == 12 {
        seq!['\\', 'f']
    } else if (c as u32) < 32 {
        seq![
            '\\',
            'u',
            '0',
            '0',
            paths::hex_digit((c as u32 / 16) as u8),
            paths::hex_digit((c as u32 % 16) as u8),
        ]
    } else {
        seq![c]
    }
}

/// How characters are written between quotes.
pub open spec fn all_escaped(text: Seq<char>) -> Seq<char>
    decreases text.len(),
{
    if text.len() == 0 {
        Seq::empty()
    } else {
        all_escaped(text.drop_last()) + escaped(text.last())
    }
}

/// A string as JSON: in quotes, with the characters escaped that JSON does not admit inside them.
pub open spec fn json_quoted(text: Seq<char>) -> Seq<char> {
    seq!['"'] + all_escaped(text) + seq!['"']
}

proof fn lemma_escaped_is_plain(text: Seq<char>)
    ensures
        text::is_plain(all_escaped(text)),
    decreases text.len(),
{
    if text.len() > 0 {
        lemma_escaped_is_plain(text.drop_last());
        assert(text::is_plain(escaped(text.last())));
    }
}

/// `serde_json::to_string` on a string slice. It does not fail on one, and writes the string in
/// quotes, with a quote, a backslash and the control characters of ASCII escaped.
#[verifier::external_body]
fn write_quoted(text: &str) -> (r: String)
    ensures
        r@ == json_quoted(text@),
{
    serde_json::to_string(text).expect("a string can be written as JSON")
}

fn quote(text: &str) -> (r: String)
    ensures
        r@ == json_quoted(text@),
        text::is_plain(r@),
{
    proof {
        lemma_escaped_is_plain(text@);
    }
    write_quoted(text)
}

/// What `serde_json` writes, indented, for the value that it reads in `text`; nothing where `text`
/// is not JSON.
pub uninterp spec fn json_indented(text: Seq<char>) -> Option<Seq<char>>;

/// `serde_json::from_str` into a `serde_json::Value`, then `serde_json::to_string_pretty`. What
/// comes out depends on the text alone.
#[verifier::external_body]
pub(crate) fn indented(text: &str) -> (r: Option<String>)
    ensures
        text::opt_view(r) == json_indented(text@),
{
    let value = serde_json::from_str::<serde_json::Value>(text).ok()?;
    serde_json::to_string_pretty(&value).ok()
}

/// The compact text of a JSON value.
pub open spec fn json_text(value: JsonView) -> Seq<char>
    decreases value,
{
    match value {
        JsonView::Null => "null"@,
        JsonView::Bool(b) => if b {
            "true"@
        } else {
            "false"@
        },
        JsonView::Number(numeral) => numeral,
        JsonView::Text(text) => json_quoted(text),
        JsonView::Array(items) => "["@ + items_text(items) + "]"@,
        JsonView::Object(members) => "{"@ + members_text(members) + "}"@,
    }
}

/// The items of an array, with commas between them.
pub open spec fn items_text(items: Seq<JsonView>) -> Seq<char>
    decreases items,
{
    if items.len() == 0 {
        Seq::empty()
    } else if items.len() == 1 {
        json_text(items[0])
    } else {
        items_text(items.drop_last()) + ","@ + json_text(items.last())
    }
}

/// The members of an object, with commas between them.
pub open spec fn members_text(members: Seq<(Seq<char>, JsonView)>) -> Seq<char>
    decreases members,
{
    if members.len() == 0 {
        Seq::empty()
    } else if members.len() == 1 {
        json_quoted(members[0].0) + ":"@ + json_text(members[0].1)
    } else {
        members_text(members.drop_last()) + ","@ + (json_quoted(members.last().0) + ":"@
            + json_text(members.last().1))
    }
}

/// The first member named `name`, if there is one.
pub open spec fn first_member(members: Seq<(Seq<char>, JsonView)>, name: Seq<char>) -> Option<
    JsonView,
>
    decreases members.len(),
{
    if members.len() == 0 {
        None
    } else if members[0].0 == name {
        Some(members[0].1)
    } else {
        first_member(members.drop_first(), name)
    }
}

/// A member that is added at the end is found where no earlier one has its name.
pub proof fn lemma_first_member_push(
    members: Seq<(Seq<char>, JsonView)>,
    added: (Seq<char>, JsonView),
    name: Seq<char>,
)
    ensures
        first_member(members.push(added), name) == match first_member(members, name) {
            Some(value) => Some(value),
            None => if added.0 == name {
                Some(added.1)
            } else {
                None
            },
        },
    decreases members.len(),
{
    if members.len() == 0 {
        assert(members.push(added).drop_first() =~= members);
    } else {
        assert(members.push(added).drop_first() =~= members.drop_first().push(added));
        lemma_first_member_push(members.drop_first(), added, name);
    }
}

/// There is no member of a name that none has.
pub proof fn lemma_no_member(members: Seq<(Seq<char>, JsonView)>, name: Seq<char>)
    requires
        forall|i: int| 0 <= i < members.len() ==> (#[trigger] members[i]).0 != name,
    ensures
        first_member(members, name) is None,
    decreases members.len(),
{
    if members.len() > 0 {
        let rest = members.drop_first();
        assert(members[0].0 != name);
        assert forall|i: int| 0 <= i < rest.len() implies (#[trigger] rest[i]).0 != name by {
            assert(rest[i] == members[i + 1]);
        }
        lemma_no_member(rest, name);
    }
}

/// Each member of an object whose names all differ is found by its name.
pub proof fn lemma_distinct_members(members: Seq<(Seq<char>, JsonView)>)
    requires
        forall|i: int, j: int|
            0 <= i < j < members.len() ==> (#[trigger] members[i]).0 != (#[trigger] members[j]).0,
    ensures
        forall|i: int|
            0 <= i < members.len() ==> first_member(members, (#[trigger] members[i]).0) == Some(
                members[i].1,
            ),
    decreases members.len(),
{
    if members.len() > 0 {
        let rest = members.drop_first();
        assert forall|i: int, j: int| 0 <= i < j < rest.len() implies (#[trigger] rest[i]).0 != (
        #[trigger] rest[j]).0 by {
            assert(members[i + 1].0 != members[j + 1].0);
        }
        lemma_distinct_members(rest);
        assert forall|i: int| 0 <= i < members.len() implies first_member(
            members,
            (#[trigger] members[i]).0,
        ) == Some(members[i].1) by {
            if i > 0 {
                assert(members[0].0 != members[i].0);
                assert(rest[i - 1] == members[i]);
            }
        }
    }
}

/// The member `name` of an object; nothing where the value is no object or has no such member.
pub open spec fn member_of(value: JsonView, name: Seq<char>) -> Option<JsonView> {
    match value {
        JsonView::Object(members) => first_member(members, name),
        _ => None,
    }
}

/// What is reached from `value` by taking the members named in `path`, one after the other.
pub open spec fn at_path(value: JsonView, path: Seq<Seq<char>>) -> Option<JsonView>
    decreases path.len(),
{
    if path.len() == 0 {
        Some(value)
    } else {
        match at_path(value, path.drop_last()) {
            Some(inner) => member_of(inner, path.last()),
            None => None,
        }
    }
}

/// The text that an optional value holds, where it is a string.
pub open spec fn text_in(value: Option<JsonView>) -> Option<Seq<char>> {
    match value {
        Some(JsonView::Text(text)) => Some(text),
        _ => None,
    }
}

/// Whether a numeral is nothing but decimal digits.
pub open spec fn is_natural(numeral: Seq<char>) -> bool {
    numeral.len() > 0 && forall|i: int|
        0 <= i < numeral.len() ==> 48 <= (#[trigger] numeral[i]) as u32 <= 57
}

/// The number that decimal digits stand for.
pub open spec fn natural_value(numeral: Seq<char>) -> nat
    decreases numeral.len(),
{
    if numeral.len() == 0 {
        0
    } else {
        10 * natural_value(numeral.drop_last()) + (numeral.last() as u32 - 48) as nat
    }
}

/// The unsigned number that a numeral stands for, where it fits in 64 bits.
pub open spec fn numeral_u64(numeral: Seq<char>) -> Option<u64> {
    if is_natural(numeral) && natural_value(numeral) <= u64::MAX {
        Some(natural_value(numeral) as u64)
    } else {
        None
    }
}

/// The unsigned number that an optional value holds.
pub open spec fn u64_in(value: Option<JsonView>) -> Option<u64> {
    match value {
        Some(JsonView::Number(numeral)) => numeral_u64(numeral),
        _ => None,
    }
}

/// The decimal numeral of a number stands for that number.
pub proof fn lemma_decimal_is_read_back(n: nat)
    ensures
        is_natural(text::decimal(n)),
        natural_value(text::decimal(n)) == n,
        n <= u64::MAX ==> numeral_u64(text::decimal(n)) == Some(n as u64),
    decreases n,
{
    let numeral = text::decimal(n);
    if n < 10 {
        assert(numeral.drop_last() =~= Seq::<char>::empty());
        assert(natural_value(numeral.drop_last()) == 0);
        assert(numeral.last() as u32 == 48 + n);
    } else {
        lemma_decimal_is_read_back(n / 10);
        assert(numeral.drop_last() =~= text::decimal(n / 10));
        assert(numeral.last() as u32 == 48 + n % 10);
    }
}

proof fn lemma_natural_value_grows(numeral: Seq<char>, k: int)
    requires
        is_natural(numeral),
        0 <= k <= numeral.len(),
    ensures
        natural_value(numeral.take(k)) <= natural_value(numeral),
    decreases numeral.len(),
{
    if k == numeral.len() {
        assert(numeral.take(k) =~= numeral);
    } else if k == 0 {
    } else {
        let shorter = numeral.drop_last();
        assert(is_natural(shorter)) by {
            assert forall|i: int| 0 <= i < shorter.len() implies 48 <= (
            #[trigger] shorter[i]) as u32 <= 57 by {
                assert(shorter[i] == numeral[i]);
            }
        }
        assert(shorter.take(k) =~= numeral.take(k));
        lemma_natural_value_grows(shorter, k);
    }
}

/// Reads an unsigned number out of a numeral.
pub fn parse_u64(numeral: &str) -> (r: Option<u64>)
    ensures
        r == numeral_u64(numeral@),
{
    let chars = text::chars_of(numeral);
    if chars.len() == 0 {
        return None;
    }
    let mut value: u64 = 0;
    let mut fits = true;
    let mut i: usize = 0;
    while i < chars.len()
        invariant
            0 <= i <= chars@.len(),
            chars@ == numeral@,
            forall|k: int| 0 <= k < i ==> 48 <= (#[trigger] chars@[k]) as u32 <= 57,
            fits ==> value == natural_value(chars@.take(i as int)),
            !fits ==> natural_value(chars@.take(i as int)) > u64::MAX,
        decreases chars@.len() - i,
    {
        let code: u32 = chars[i] as u32;
        if code < 48 || code > 57 {
            assert(!is_natural(numeral@)) by {
                assert(chars@[i as int] as u32 == code);
            }
            return None;
        }
        let d: u64 = (code - 48) as u64;
        proof {
            assert(chars@.take(i + 1).drop_last() =~= chars@.take(i as int));
            assert(chars@.take(i + 1).last() == chars@[i as int]);
        }
        if fits {
            if value > (u64::MAX - d) / 10 {
                assert(10 * value + d > u64::MAX);
                fits = false;
            } else {
                value = value * 10 + d;
            }
        }
        i += 1;
    }
    assert(chars@.take(chars@.len() as int) =~= chars@);
    if fits {
        Some(value)
    } else {
        None
    }
}

impl Member {
    /// The member `name` with `value`.
    pub fn new(name: &str, value: Json) -> (r: Member)
        ensures
            r.name@ == name@,
            r.value == value,
    {
        Member { name: name.to_owned(), value }
    }
}

impl Json {
    /// The string `text`.
    pub fn text(text: &str) -> (r: Json)
        ensures
            r@ == JsonView::Text(text@),
    {
        Json::Text(text.to_owned())
    }

    /// The number `n`.
    pub fn unsigned(n: u64) -> (r: Json)
        ensures
            r@ == JsonView::Number(text::decimal(n as nat)),
    {
        Json::Number(text::decimal_u64(n))
    }

    /// The number `n`.
    pub fn signed(n: i64) -> (r: Json)
        ensures
            r@ == JsonView::Number(text::decimal_int(n as int)),
    {
        Json::Number(text::decimal_i64(n))
    }

    /// The string in `text`, or null where there is none.
    pub fn optional_text(text: &Option<String>) -> (r: Json)
        ensures
            r@ == match text::opt_view(*text) {
                Some(t) => JsonView::Text(t),
                None => JsonView::Null,
            },
    {
        match text {
            Some(t) => Json::text(t.as_str()),
            None => Json::Null,
        }
    }

    /// The array of `items`.
    pub fn array(items: Vec<Json>) -> (r: Json)
        ensures
            r@ == JsonView::Array(json_views(items@)),
    {
        proof {
            lemma_array_view(items);
        }
        Json::Array(items)
    }

    /// The object with `members`.
    pub fn object(members: Vec<Member>) -> (r: Json)
        ensures
            r@ == JsonView::Object(member_views(members@)),
    {
        proof {
            lemma_object_view(members);
        }
        Json::Object(members)
    }

    /// The member `name`; nothing where the value is no object or has no such member.
    pub fn get(&self, name: &str) -> (r: Option<&Json>)
        ensures
            r is Some <==> member_of(self@, name@) is Some,
            r is Some ==> member_of(self@, name@) == Some(r->Some_0@),
    {
        match self {
            Json::Object(members) => {
                proof {
                    lemma_object_view(*members);
                }
                let ghost all = member_views(members@);
                assert(all.skip(0) =~= all);
                let mut i: usize = 0;
                while i < members.len()
                    invariant
                        0 <= i <= members@.len(),
                        all == member_views(members@),
                        self@ == JsonView::Object(all),
                        first_member(all, name@) == first_member(all.skip(i as int), name@),
                    decreases members@.len() - i,
                {
                    assert(all.skip(i as int)[0] == all[i as int]);
                    if text::same_text(members[i].name.as_str(), name) {
                        return Some(&members[i].value);
                    }
                    assert(all.skip(i as int).drop_first() =~= all.skip(i + 1));
                    i += 1;
                }
                None
            },
            _ => None,
        }
    }

    /// What is reached by taking the members named in `path`, one after the other.
    pub fn at(&self, path: &Vec<&str>) -> (r: Option<&Json>)
        ensures
            r is Some <==> at_path(self@, Seq::new(path@.len(), |i: int| path@[i]@)) is Some,
            r is Some ==> at_path(self@, Seq::new(path@.len(), |i: int| path@[i]@)) == Some(
                r->Some_0@,
            ),
    {
        let ghost names = Seq::new(path@.len(), |i: int| path@[i]@);
        let mut here: Option<&Json> = Some(self);
        let mut i: usize = 0;
        assert(names.take(0) =~= Seq::<Seq<char>>::empty());
        while i < path.len()
            invariant
                0 <= i <= path@.len(),
                names == Seq::new(path@.len(), |i: int| path@[i]@),
                here is Some <==> at_path(self@, names.take(i as int)) is Some,
                here is Some ==> at_path(self@, names.take(i as int)) == Some(here->Some_0@),
            decreases path@.len() - i,
        {
            assert(names.take(i + 1).drop_last() =~= names.take(i as int));
            assert(names.take(i + 1).last() == path@[i as int]@);
            here = match here {
                Some(value) => value.get(path[i]),
                None => None,
            };
            i += 1;
        }
        assert(names.take(path@.len() as int) =~= names);
        here
    }

    /// The string that the value is, if it is one.
    pub fn as_str(&self) -> (r: Option<&str>)
        ensures
            r is Some <==> self@ is Text,
            r is Some ==> self@ == JsonView::Text(r->Some_0@),
    {
        match self {
            Json::Text(text) => Some(text.as_str()),
            _ => None,
        }
    }

    /// The unsigned 64-bit number that the value is, if it is one.
    pub fn as_u64(&self) -> (r: Option<u64>)
        ensures
            r == u64_in(Some(self@)),
    {
        match self {
            Json::Number(numeral) => parse_u64(numeral.as_str()),
            _ => None,
        }
    }

    /// The truth value that the value is, if it is one.
    pub fn as_bool(&self) -> (r: Option<bool>)
        ensures
            r == match self@ {
                JsonView::Bool(b) => Some(b),
                _ => None,
            },
    {
        match self {
            Json::Bool(b) => Some(*b),
            _ => None,
        }
    }

    /// The string that the member `name` is, if it is one.
    pub fn text_member(&self, name: &str) -> (r: Option<String>)
        ensures
            text::opt_view(r) == text_in(member_of(self@, name@)),
    {
        match self.get(name) {
            Some(value) => match value.as_str() {
                Some(text) => Some(text.to_owned()),
                None => None,
            },
            None => None,
        }
    }

    /// The string at the end of `path`, if there is one.
    pub fn text_at(&self, path: &Vec<&str>) -> (r: Option<String>)
        ensures
            text::opt_view(r) == text_in(at_path(self@, Seq::new(path@.len(), |i: int| path@[i]@))),
    {
        match self.at(path) {
            Some(value) => match value.as_str() {
                Some(text) => Some(text.to_owned()),
                None => None,
            },
            None => None,
        }
    }

    /// The compact text of the value. It is one line where the value can be read back.
    pub fn render(&self) -> (r: String)
        ensures
            r@ == json_text(self@),
            forall|depth: nat| #[trigger] printable(self@, depth) ==> text::is_plain(r@),
        decreases self,
    {
        let ghost fits = exists|depth: nat| #[trigger] printable(self@, depth);
        let ghost depth = choose|depth: nat| #[trigger] printable(self@, depth);
        proof {
            lemma_plain_marks();
            if let JsonView::Number(numeral) = self@ {
                if fits {
                    lemma_integer_is_plain(numeral);
                }
            }
        }
        match self {
            Json::Null => "null".to_owned(),
            Json::Bool(b) => if *b {
                "true".to_owned()
            } else {
                "false".to_owned()
            },
            Json::Number(numeral) => numeral.clone(),
            Json::Text(text) => quote(text.as_str()),
            Json::Array(items) => {
                proof {
                    lemma_array_view(*items);
                }
                let ghost all = json_views(items@);
                let mut inner = String::new();
                let mut i: usize = 0;
                assert(all.take(0) =~= Seq::<JsonView>::empty());
                while i < items.len()
                    invariant
                        0 <= i <= items@.len(),
                        *self == Json::Array(*items),
                        all == json_views(items@),
                        self@ == JsonView::Array(all),
                        inner@ == items_text(all.take(i as int)),
                        fits ==> printable(self@, depth),
                        fits ==> text::is_plain(inner@),
                        text::is_plain(","@),
                    decreases items@.len() - i,
                {
                    proof {
                        assert(all.take(i + 1).drop_last() =~= all.take(i as int));
                        assert(all.take(i + 1).last() == items@[i as int]@);
                        assert(decreases_to!(*self => self->Array_0@[i as int]));
                    }
                    let part = items[i].render();
                    proof {
                        if fits {
                            lemma_printable_item(all, i as int, depth);
                            assert(text::is_plain(part@));
                        }
                    }
                    if i > 0 {
                        inner.append(",");
                    } else {
                        assert(inner@ + part@ =~= part@);
                        assert(all.take(1)[0] == items@[0]@);
                    }
                    inner.append(part.as_str());
                    i += 1;
                }
                assert(all.take(items@.len() as int) =~= all);
                let mut r = "[".to_owned();
                r.append(inner.as_str());
                r.append("]");
                r
            },
            Json::Object(members) => {
                proof {
                    lemma_object_view(*members);
                }
                let ghost all = member_views(members@);
                let mut inner = String::new();
                let mut i: usize = 0;
                assert(all.take(0) =~= Seq::<(Seq<char>, JsonView)>::empty());
                while i < members.len()
                    invariant
                        0 <= i <= members@.len(),
                        *self == Json::Object(*members),
                        all == member_views(members@),
                        self@ == JsonView::Object(all),
                        inner@ == members_text(all.take(i as int)),
                        fits ==> printable(self@, depth),
                        fits ==> text::is_plain(inner@),
                        text::is_plain(","@),
                        text::is_plain(":"@),
                    decreases members@.len() - i,
                {
                    proof {
                        assert(all.take(i + 1).drop_last() =~= all.take(i as int));
                        assert(all.take(i + 1).last() == (
                            members@[i as int].name@,
                            members@[i as int].value@,
                        ));
                        assert(decreases_to!(*self => self->Object_0@[i as int].value));
                    }
                    let mut part = quote(members[i].name.as_str());
                    part.append(":");
                    let value = members[i].value.render();
                    part.append(value.as_str());
                    proof {
                        if fits {
                            lemma_printable_value(all, i as int, depth);
                            assert(text::is_plain(value@));
                        }
                    }
                    if i > 0 {
                        inner.append(",");
                    } else {
                        assert(inner@ + part@ =~= part@);
                        assert(all.take(1)[0] == (members@[0].name@, members@[0].value@));
                    }
                    inner.append(part.as_str());
                    i += 1;
                }
                assert(all.take(members@.len() as int) =~= all);
                let mut r = "{".to_owned();
                r.append(inner.as_str());
                r.append("}");
                r
            },
        }
    }
}

impl Clone for Json {
    fn clone(&self) -> (r: Json)
        ensures
            r@ == self@,
        decreases self,
    {
        match self {
            Json::Null => Json::Null,
            Json::Bool(b) => Json::Bool(*b),
            Json::Number(numeral) => Json::Number(numeral.clone()),
            Json::Text(text) => Json::Text(text.clone()),
            Json::Array(items) => {
                let mut copy: Vec<Json> = Vec::new();
                let mut i: usize = 0;
                while i < items.len()
                    invariant
                        0 <= i <= items@.len(),
                        *self == Json::Array(*items),
                        copy@.len() == i,
                        forall|k: int| 0 <= k < i ==> (#[trigger] copy@[k])@ == items@[k]@,
                    decreases items@.len() - i,
                {
                    assert(decreases_to!(*self => self->Array_0@[i as int]));
                    copy.push(items[i].clone());
                    i += 1;
                }
                proof {
                    lemma_array_view(*items);
                    lemma_array_view(copy);
                    assert(json_views(copy@) =~= json_views(items@));
                }
                Json::Array(copy)
            },
            Json::Object(members) => {
                let mut copy: Vec<Member> = Vec::new();
                let mut i: usize = 0;
                while i < members.len()
                    invariant
                        0 <= i <= members@.len(),
                        *self == Json::Object(*members),
                        copy@.len() == i,
                        forall|k: int|
                            0 <= k < i ==> (#[trigger] copy@[k]).name@ == members@[k].name@
                                && copy@[k].value@ == members@[k].value@,
                    decreases members@.len() - i,
                {
                    assert(decreases_to!(*self => self->Object_0@[i as int].value));
                    copy.push(
                        Member { name: members[i].name.clone(), value: members[i].value.clone() },
                    );
                    i += 1;
                }
                proof {
                    lemma_object_view(*members);
                    lemma_object_view(copy);
                    assert(member_views(copy@) =~= member_views(members@));
                }
                Json::Object(copy)
            },
        }
    }
}

/// No members: where the members of an object start.
pub open spec fn no_members() -> Seq<(Seq<char>, JsonView)> {
    Seq::empty()
}

/// The members of an object that is being built.
#[derive(Debug)]
pub struct ObjectBuilder {
    members: Vec<Member>,
}

impl ObjectBuilder {
    /// The members given so far.
    pub closed spec fn view(&self) -> Seq<(Seq<char>, JsonView)> {
        member_views(self.members@)
    }

    /// An object without members.
    pub fn new() -> (r: ObjectBuilder)
        ensures
            r@ == no_members(),
    {
        let r = ObjectBuilder { members: Vec::new() };
        assert(r@ =~= no_members());
        r
    }

    /// The object with one more member.
    pub fn with(self, name: &str, value: Json) -> (r: ObjectBuilder)
        ensures
            r@ == self@.push((name@, value@)),
    {
        let mut members = self.members;
        members.push(Member::new(name, value));
        let r = ObjectBuilder { members };
        assert(r@ =~= self@.push((name@, value@)));
        r
    }

    /// The object with one more member, a string.
    pub fn text(self, name: &str, value: &str) -> (r: ObjectBuilder)
        ensures
            r@ == self@.push((name@, JsonView::Text(value@))),
    {
        self.with(name, Json::text(value))
    }

    /// The object with one more member, a number.
    pub fn number(self, name: &str, value: u64) -> (r: ObjectBuilder)
        ensures
            r@ == self@.push((name@, JsonView::Number(text::decimal(value as nat)))),
    {
        self.with(name, Json::unsigned(value))
    }

    /// The object with one more member, a truth value.
    pub fn flag(self, name: &str, value: bool) -> (r: ObjectBuilder)
        ensures
            r@ == self@.push((name@, JsonView::Bool(value))),
    {
        self.with(name, Json::Bool(value))
    }

    /// The object.
    pub fn build(self) -> (r: Json)
        ensures
            r@ == JsonView::Object(self@),
    {
        Json::object(self.members)
    }
}

/// A value of `serde_json`.
#[verifier::external_type_specification]
#[verifier::external_body]
pub struct ExValue(serde_json::Value);

/// What a value of `serde_json` holds, its object members in the order in which it keeps them.
pub uninterp spec fn value_contents(value: serde_json::Value) -> JsonView;

/// What `serde_json::from_str` reads in a text: a value, or what it says is wrong.
pub uninterp spec fn json_parsed(text: Seq<char>) -> Result<JsonView, Seq<char>>;

/// What an answer of `serde_json::from_str` stands for.
pub open spec fn parsed_contents(answer: Result<serde_json::Value, String>) -> Result<
    JsonView,
    Seq<char>,
> {
    match answer {
        Ok(value) => Ok(value_contents(value)),
        Err(message) => Err(message@),
    }
}

/// Whether a numeral is that of an integer of 64 bits, in its shortest form.
pub open spec fn is_integer(numeral: Seq<char>) -> bool {
    ||| exists|n: u64| numeral == #[trigger] text::decimal(n as nat)
    ||| exists|n: i64| n < 0 && numeral == #[trigger] text::decimal_int(n as int)
}

/// How deep values may be nested in a text that is read.
pub open spec fn depth_limit() -> nat {
    127
}

/// Whether a value is read back from its text: its numbers are integers, no object in it has two
/// members of one name, and it is nested no deeper than `depth`.
pub open spec fn printable(value: JsonView, depth: nat) -> bool
    decreases value,
{
    match value {
        JsonView::Null => true,
        JsonView::Bool(_) => true,
        JsonView::Number(numeral) => is_integer(numeral),
        JsonView::Text(_) => true,
        JsonView::Array(items) => depth > 0 && forall|i: int|
            0 <= i < items.len() ==> printable(#[trigger] items[i], (depth - 1) as nat),
        JsonView::Object(members) => {
            &&& depth > 0
            &&& forall|i: int, j: int|
                0 <= i < j < members.len() ==> (#[trigger] members[i]).0 != (
                #[trigger] members[j]).0
            &&& forall|i: int|
                0 <= i < members.len() ==> printable(
                    (#[trigger] members[i]).1,
                    (depth - 1) as nat,
                )
        },
    }
}

/// Whether two values are the same but for the order of members.
pub open spec fn same_value(a: JsonView, b: JsonView) -> bool
    decreases a,
{
    match (a, b) {
        (JsonView::Null, JsonView::Null) => true,
        (JsonView::Bool(x), JsonView::Bool(y)) => x == y,
        (JsonView::Number(x), JsonView::Number(y)) => x == y,
        (JsonView::Text(x), JsonView::Text(y)) => x == y,
        (JsonView::Array(x), JsonView::Array(y)) => x.len() == y.len() && forall|i: int|
            0 <= i < x.len() ==> same_value(#[trigger] x[i], y[i]),
        (JsonView::Object(x), JsonView::Object(y)) => {
            &&& forall|i: int|
                0 <= i < x.len() ==> (first_member(y, (#[trigger] x[i]).0) matches Some(found)
                    && same_value(x[i].1, found))
            &&& forall|j: int|
                0 <= j < y.len() ==> first_member(x, (#[trigger] y[j]).0) is Some
        },
        _ => false,
    }
}

/// Whether what was read is the value that the text was written for.
pub open spec fn reads_back(text: Seq<char>, read: Result<JsonView, Seq<char>>) -> bool {
    forall|value: JsonView|
        printable(value, depth_limit()) && #[trigger] json_text(value) == text ==> (read matches Ok(
            given,
        ) && same_value(value, given) && printable(given, depth_limit()))
}

/// Whether a text is that of a value, but for the order of members.
pub open spec fn is_text_of(value: JsonView, text: Seq<char>) -> bool {
    &&& printable(value, depth_limit())
    &&& exists|given: JsonView|
        printable(given, depth_limit()) && same_value(value, given) && text == #[trigger] json_text(
            given,
        )
}

proof fn lemma_plain_marks()
    ensures
        text::is_plain("null"@),
        text::is_plain("true"@),
        text::is_plain("false"@),
        text::is_plain(","@),
        text::is_plain(":"@),
        text::is_plain("["@),
        text::is_plain("]"@),
        text::is_plain("{"@),
        text::is_plain("}"@),
{
    reveal_strlit("null");
    reveal_strlit("true");
    reveal_strlit("false");
    reveal_strlit(",");
    reveal_strlit(":");
    reveal_strlit("[");
    reveal_strlit("]");
    reveal_strlit("{");
    reveal_strlit("}");
}

proof fn lemma_printable_item(items: Seq<JsonView>, i: int, depth: nat)
    requires
        printable(JsonView::Array(items), depth),
        0 <= i < items.len(),
    ensures
        printable(items[i], (depth - 1) as nat),
{
    let value = JsonView::Array(items);
    assert(value->Array_0[i] == items[i]);
}

proof fn lemma_printable_value(members: Seq<(Seq<char>, JsonView)>, i: int, depth: nat)
    requires
        printable(JsonView::Object(members), depth),
        0 <= i < members.len(),
    ensures
        printable(members[i].1, (depth - 1) as nat),
{
    let value = JsonView::Object(members);
    assert(value->Object_0[i] == members[i]);
}

proof fn lemma_integer_is_plain(numeral: Seq<char>)
    requires
        is_integer(numeral),
    ensures
        text::is_plain(numeral),
{
    if exists|n: u64| numeral == #[trigger] text::decimal(n as nat) {
        let n = choose|n: u64| numeral == #[trigger] text::decimal(n as nat);
        lemma_decimal_is_read_back(n as nat);
    } else {
        let n = choose|n: i64| n < 0 && numeral == #[trigger] text::decimal_int(n as int);
        lemma_decimal_is_read_back((-n) as nat);
    }
}

/// What can be read back at some depth can be at a greater one.
pub proof fn lemma_printable_deeper(value: JsonView, depth: nat, deeper: nat)
    requires
        printable(value, depth),
        depth <= deeper,
    ensures
        printable(value, deeper),
    decreases value,
{
    match value {
        JsonView::Array(items) => {
            assert forall|i: int| 0 <= i < items.len() implies printable(
                #[trigger] items[i],
                (deeper - 1) as nat,
            ) by {
                lemma_printable_deeper(items[i], (depth - 1) as nat, (deeper - 1) as nat);
            }
        },
        JsonView::Object(members) => {
            assert forall|i: int| 0 <= i < members.len() implies printable(
                (#[trigger] members[i]).1,
                (deeper - 1) as nat,
            ) by {
                lemma_printable_deeper(members[i].1, (depth - 1) as nat, (deeper - 1) as nat);
            }
        },
        _ => {},
    }
}

/// A member of a value that can be read back can be, too.
pub proof fn lemma_printable_member(value: JsonView, name: Seq<char>, depth: nat)
    requires
        printable(value, depth),
        member_of(value, name) is Some,
    ensures
        printable(member_of(value, name)->Some_0, depth),
{
    let i = lemma_first_member_place(value->Object_0, name);
    lemma_printable_deeper(value->Object_0[i].1, (depth - 1) as nat, depth);
}

/// A value is the same as itself.
pub proof fn lemma_same_self(value: JsonView, depth: nat)
    requires
        printable(value, depth),
    ensures
        same_value(value, value),
    decreases value,
{
    match value {
        JsonView::Array(items) => {
            assert forall|i: int| 0 <= i < items.len() implies same_value(
                #[trigger] items[i],
                items[i],
            ) by {
                lemma_same_self(items[i], (depth - 1) as nat);
            }
        },
        JsonView::Object(members) => {
            assert forall|i: int| 0 <= i < members.len() implies (first_member(
                members,
                (#[trigger] members[i]).0,
            ) matches Some(found) && same_value(members[i].1, found)) by {
                lemma_same_self(members[i].1, (depth - 1) as nat);
                lemma_own_member(members, i);
            }
        },
        _ => {},
    }
}

proof fn lemma_own_member(members: Seq<(Seq<char>, JsonView)>, i: int)
    requires
        0 <= i < members.len(),
        forall|k: int, j: int|
            0 <= k < j < members.len() ==> (#[trigger] members[k]).0 != (#[trigger] members[j]).0,
    ensures
        first_member(members, members[i].0) == Some(members[i].1),
    decreases members.len(),
{
    if i > 0 {
        assert(members[0].0 != members[i].0);
        let rest = members.drop_first();
        assert forall|k: int, j: int| 0 <= k < j < rest.len() implies (#[trigger] rest[k]).0 != (
        #[trigger] rest[j]).0 by {
            assert(rest[k] == members[k + 1]);
            assert(rest[j] == members[j + 1]);
        }
        assert(rest[i - 1] == members[i]);
        lemma_own_member(rest, i - 1);
    }
}

/// The text of a value that can be read back is that of the value.
pub proof fn lemma_own_text(value: JsonView)
    requires
        printable(value, depth_limit()),
    ensures
        is_text_of(value, json_text(value)),
{
    lemma_same_self(value, depth_limit());
}

/// `serde_json::from_str` into a `serde_json::Value`. What it answers depends on the text alone. It
/// reads the compact text of a value as that value, with the members of objects in its own order:
/// where numbers are integers of 64 bits, no object has two members of one name, and the value is
/// nested no deeper than the parser goes, which is one below its limit of 128. What is read is then
/// such a value, too.
#[verifier::external_body]
fn parse_value(text: &str) -> (r: Result<serde_json::Value, String>)
    ensures
        parsed_contents(r) == json_parsed(text@),
        reads_back(text@, parsed_contents(r)),
{
    serde_json::from_str(text).map_err(|error| error.to_string())
}

/// What a value of `serde_json` is: a value without parts, or one with so many.
enum Shape {
    Leaf(Json),
    Array(usize),
    Object(usize),
}

/// The variants of `serde_json::Value`, told apart. A number gives the numeral that it is written
/// as.
#[verifier::external_body]
fn shape(value: &serde_json::Value) -> (r: Shape)
    ensures
        r matches Shape::Leaf(leaf) ==> leaf@ == value_contents(*value) && leaf@ !is Array
            && leaf@ !is Object,
        r matches Shape::Array(n) ==> value_contents(*value) is Array && value_contents(
            *value,
        )->Array_0.len() == n,
        r matches Shape::Object(n) ==> value_contents(*value) is Object && value_contents(
            *value,
        )->Object_0.len() == n,
{
    match value {
        serde_json::Value::Null => Shape::Leaf(Json::Null),
        serde_json::Value::Bool(b) => Shape::Leaf(Json::Bool(*b)),
        serde_json::Value::Number(number) => Shape::Leaf(Json::Number(number.to_string())),
        serde_json::Value::String(text) => Shape::Leaf(Json::Text(text.clone())),
        serde_json::Value::Array(items) => Shape::Array(items.len()),
        serde_json::Value::Object(members) => Shape::Object(members.len()),
    }
}

/// Indexing of a `serde_json::Value` that is an array.
#[verifier::external_body]
fn array_item(value: &serde_json::Value, index: usize) -> (r: &serde_json::Value)
    requires
        value_contents(*value) is Array,
        index < value_contents(*value)->Array_0.len(),
    ensures
        value_contents(*r) == value_contents(*value)->Array_0[index as int],
{
    &value[index]
}

/// The name of a member of a `serde_json::Value` that is an object, by its place in
/// `serde_json::Map::keys`.
#[verifier::external_body]
fn member_name(value: &serde_json::Value, index: usize) -> (r: String)
    requires
        value_contents(*value) is Object,
        index < value_contents(*value)->Object_0.len(),
    ensures
        r@ == value_contents(*value)->Object_0[index as int].0,
{
    value.as_object().and_then(|map| map.keys().nth(index)).cloned().unwrap_or_default()
}

/// The value of a member of a `serde_json::Value` that is an object, by its place in
/// `serde_json::Map::values`.
#[verifier::external_body]
fn member_value(value: &serde_json::Value, index: usize) -> (r: &serde_json::Value)
    requires
        value_contents(*value) is Object,
        index < value_contents(*value)->Object_0.len(),
    ensures
        value_contents(*r) == value_contents(*value)->Object_0[index as int].1,
{
    value.as_object().and_then(|map| map.values().nth(index)).unwrap_or(value)
}

fn from_value(value: &serde_json::Value) -> (r: Json)
    ensures
        r@ == value_contents(*value),
    decreases value_contents(*value),
{
    match shape(value) {
        Shape::Leaf(leaf) => leaf,
        Shape::Array(n) => {
            let ghost all = value_contents(*value)->Array_0;
            let mut items: Vec<Json> = Vec::new();
            let mut i: usize = 0;
            while i < n
                invariant
                    0 <= i <= n == all.len(),
                    value_contents(*value) is Array,
                    all == value_contents(*value)->Array_0,
                    items@.len() == i,
                    forall|k: int| 0 <= k < i ==> (#[trigger] items@[k])@ == all[k],
                decreases n - i,
            {
                let item = array_item(value, i);
                assert(decreases_to!(
                    value_contents(*value) => value_contents(*value)->Array_0[i as int]
                ));
                items.push(from_value(item));
                i += 1;
            }
            assert(json_views(items@) =~= all);
            Json::array(items)
        },
        Shape::Object(n) => {
            let ghost all = value_contents(*value)->Object_0;
            let mut members: Vec<Member> = Vec::new();
            let mut i: usize = 0;
            while i < n
                invariant
                    0 <= i <= n == all.len(),
                    value_contents(*value) is Object,
                    all == value_contents(*value)->Object_0,
                    members@.len() == i,
                    forall|k: int|
                        0 <= k < i ==> (#[trigger] members@[k]).name@ == all[k].0
                            && members@[k].value@ == all[k].1,
                decreases n - i,
            {
                let name = member_name(value, i);
                let inner = member_value(value, i);
                assert(decreases_to!(
                    value_contents(*value) => value_contents(*value)->Object_0[i as int].1
                ));
                members.push(Member { name, value: from_value(inner) });
                i += 1;
            }
            assert(member_views(members@) =~= all);
            Json::object(members)
        },
    }
}

/// What an answer of the parser stands for.
pub open spec fn parse_view(answer: Result<Json, String>) -> Result<JsonView, Seq<char>> {
    match answer {
        Ok(value) => Ok(value@),
        Err(message) => Err(message@),
    }
}

impl Json {
    /// Reads a value out of its text.
    pub fn parse(text: &str) -> (r: Result<Json, String>)
        ensures
            parse_view(r) == json_parsed(text@),
            reads_back(text@, parse_view(r)),
    {
        match parse_value(text) {
            Ok(value) => Ok(from_value(&value)),
            Err(message) => Err(message),
        }
    }
}

proof fn lemma_first_member_place(members: Seq<(Seq<char>, JsonView)>, name: Seq<char>) -> (i: int)
    requires
        first_member(members, name) is Some,
    ensures
        0 <= i < members.len(),
        members[i].0 == name,
        first_member(members, name) == Some(members[i].1),
    decreases members.len(),
{
    if members[0].0 == name {
        0
    } else {
        let i = lemma_first_member_place(members.drop_first(), name);
        assert(members.drop_first()[i] == members[i + 1]);
        i + 1
    }
}

/// Values that are the same have the same members.
pub proof fn lemma_same_members(a: JsonView, b: JsonView, name: Seq<char>)
    requires
        same_value(a, b),
    ensures
        match (member_of(a, name), member_of(b, name)) {
            (Some(x), Some(y)) => same_value(x, y),
            (None, None) => true,
            _ => false,
        },
{
    if let (JsonView::Object(x), JsonView::Object(y)) = (a, b) {
        if first_member(x, name) is Some {
            let i = lemma_first_member_place(x, name);
            assert(first_member(y, x[i].0) is Some);
        } else if first_member(y, name) is Some {
            let j = lemma_first_member_place(y, name);
            assert(first_member(x, y[j].0) is Some);
        }
    }
}

/// A value that is the same as one with the given fields has them too.
pub proof fn lemma_same_fields(a: JsonView, b: JsonView, fields: Seq<Field>)
    requires
        same_value(a, b),
        conforms(a, fields),
        forall|i: int|
            0 <= i < fields.len() ==> (#[trigger] fields[i]).kind != FieldKind::Texts && (
            fields[i].kind == FieldKind::Variant || fields[i].kind == FieldKind::State
                ==> member_of(a, fields[i].name@)->Some_0 is Text),
    ensures
        conforms(b, fields),
{
    let x = a->Object_0;
    let y = b->Object_0;
    assert forall|j: int| 0 <= j < y.len() implies has_field(fields, (#[trigger] y[j]).0) by {
        assert(first_member(x, y[j].0) is Some);
        let i = lemma_first_member_place(x, y[j].0);
        assert(has_field(fields, x[i].0));
    }
    assert forall|i: int| 0 <= i < fields.len() implies field_fits(
        member_of(b, (#[trigger] fields[i]).name@),
        fields[i].kind,
    ) by {
        assert(field_fits(member_of(a, fields[i].name@), fields[i].kind));
        lemma_same_members(a, b, fields[i].name@);
    }
    assert(conforms(b, fields));
}

/// The text of an object stands between braces, so that white space around it can be told from it.
pub proof fn law_object_lines_are_trimmed(value: JsonView)
    requires
        value is Object,
    ensures
        text::trim(json_text(value)) == json_text(value),
        text::trim(json_text(value) + "\n"@) == json_text(value),
{
    reveal_strlit("{");
    reveal_strlit("}");
    reveal_strlit("\n");
    let inner = json_text(value);
    assert(inner[0] == '{');
    assert(inner.last() == '}');
    let line = inner + "\n"@;
    assert(line[0] == '{');
    assert(line.last() == '\n');
    assert(line.drop_last() =~= inner);
}

/// What a member of an object must be.
#[derive(Clone, Copy, Debug, PartialEq, Eq, Structural)]
pub enum FieldKind {
    /// A string that must be there.
    Text,
    /// An unsigned number that must be there.
    Number,
    /// An unsigned number of 32 bits that must be there.
    Number32,
    /// Any value, but it must be there.
    Value,
    /// A name, or an object with one member of that name that is null.
    Variant,
    /// The name of the state of a run, told in one of these ways.
    State,
    /// An array of strings that must be there.
    Texts,
    /// An array that must be there.
    Values,
    /// A string, null, or nothing.
    OptionalText,
    /// An unsigned number, null, or nothing.
    OptionalNumber,
    /// A length, null, or nothing.
    OptionalSize,
    /// A truth value, null, or nothing.
    OptionalFlag,
    /// Any value, or nothing.
    OptionalValue,
}

/// A member that an object may have.
#[derive(Clone, Copy, Debug, PartialEq, Eq)]
pub struct Field {
    pub name: &'static str,
    pub kind: FieldKind,
}

/// The name that an optional value holds: a string, or an object with one member of that name that is
/// null.
pub open spec fn variant_in(value: Option<JsonView>) -> Option<Seq<char>> {
    match value {
        Some(JsonView::Text(name)) => Some(name),
        Some(JsonView::Object(members)) => if members.len() == 1 && members[0].1
            == JsonView::Null {
            Some(members[0].0)
        } else {
            None
        },
        _ => None,
    }
}

/// The first of items that is no string.
pub open spec fn first_not_text(items: Seq<JsonView>) -> Option<JsonView>
    decreases items.len(),
{
    if items.len() == 0 {
        None
    } else if items[0] is Text {
        first_not_text(items.drop_first())
    } else {
        Some(items[0])
    }
}

/// Whether a member, or its absence, is what the field wants.
pub open spec fn field_fits(value: Option<JsonView>, kind: FieldKind) -> bool {
    match kind {
        FieldKind::Text => text_in(value) is Some,
        FieldKind::Number => u64_in(value) is Some,
        FieldKind::Number32 => u64_in(value) is Some && u64_in(value)->Some_0 <= u32::MAX,
        FieldKind::Value => value is Some,
        FieldKind::Variant => variant_in(value) is Some,
        FieldKind::State => variant_in(value) is Some && protocol::state_named(
            variant_in(value)->Some_0,
        ) is Some,
        FieldKind::Texts => value is Some && value->Some_0 is Array && first_not_text(
            value->Some_0->Array_0,
        ) is None,
        FieldKind::Values => value is Some && value->Some_0 is Array,
        FieldKind::OptionalText => value is None || value == Some(JsonView::Null) || text_in(
            value,
        ) is Some,
        FieldKind::OptionalNumber => value is None || value == Some(JsonView::Null) || u64_in(
            value,
        ) is Some,
        FieldKind::OptionalSize => value is None || value == Some(JsonView::Null) || u64_in(
            value,
        ) is Some,
        FieldKind::OptionalFlag => value is None || value == Some(JsonView::Null) || (value
            is Some && value->Some_0 is Bool),
        FieldKind::OptionalValue => true,
    }
}

/// Whether `fields` has one named `name`.
pub open spec fn has_field(fields: Seq<Field>, name: Seq<char>) -> bool {
    exists|i: int| 0 <= i < fields.len() && (#[trigger] fields[i]).name@ == name
}

/// Whether `value` is an object that has only members that `fields` names, and each field is what
/// it must be.
pub open spec fn conforms(value: JsonView, fields: Seq<Field>) -> bool {
    &&& value is Object
    &&& forall|i: int|
        0 <= i < value->Object_0.len() ==> has_field(fields, (#[trigger] value->Object_0[i]).0)
    &&& forall|i: int|
        0 <= i < fields.len() ==> field_fits(
            member_of(value, (#[trigger] fields[i]).name@),
            fields[i].kind,
        )
}

/// A value with its members named: what is told in a list, in the order of the fields, is told by their
/// names. A list tells at least `least` of them.
pub open spec fn by_name(value: JsonView, fields: Seq<Field>, least: nat) -> JsonView {
    match value {
        JsonView::Array(items) => if least <= items.len() <= fields.len() {
            JsonView::Object(Seq::new(items.len(), |i: int| (fields[i].name@, items[i])))
        } else {
            value
        },
        _ => value,
    }
}

/// A value with its members named: a list that tells all of them, in the order of `names`, is told by
/// their names.
pub open spec fn listed(value: JsonView, names: Seq<Seq<char>>) -> JsonView {
    match value {
        JsonView::Array(items) => if items.len() == names.len() {
            JsonView::Object(Seq::new(items.len(), |i: int| (names[i], items[i])))
        } else {
            value
        },
        _ => value,
    }
}

/// Whether a numeral is that of a whole number of 64 bits.
pub open spec fn is_whole(numeral: Seq<char>) -> bool {
    numeral_u64(numeral) is Some || numeral_i64(numeral) is Some
}

/// A value that should have been another, in words.
pub open spec fn unexpected(value: JsonView) -> Seq<char> {
    match value {
        JsonView::Null => "null"@,
        JsonView::Bool(b) => if b {
            "boolean `true`"@
        } else {
            "boolean `false`"@
        },
        JsonView::Number(numeral) => if is_whole(numeral) {
            "integer `"@ + numeral + "`"@
        } else {
            "floating point `"@ + numeral + "`"@
        },
        JsonView::Text(text) => "string "@ + text::debug_quoted(text),
        JsonView::Array(_) => "sequence"@,
        JsonView::Object(_) => "map"@,
    }
}

/// What a field wants, in words.
pub open spec fn wanted(kind: FieldKind) -> Seq<char> {
    match kind {
        FieldKind::Text => "a string"@,
        FieldKind::OptionalText => "a string"@,
        FieldKind::Number => "u64"@,
        FieldKind::OptionalNumber => "u64"@,
        FieldKind::Number32 => "u32"@,
        FieldKind::OptionalSize => "usize"@,
        FieldKind::OptionalFlag => "a boolean"@,
        FieldKind::Variant => "string or map"@,
        FieldKind::State => "string or map"@,
        FieldKind::Texts => "a sequence"@,
        FieldKind::Values => "a sequence"@,
        FieldKind::Value => "any value"@,
        FieldKind::OptionalValue => "any value"@,
    }
}

/// Whether a field wants a number.
pub open spec fn counts(kind: FieldKind) -> bool {
    kind == FieldKind::Number || kind == FieldKind::OptionalNumber || kind == FieldKind::Number32
        || kind == FieldKind::OptionalSize
}

/// What is said of a name that no state of a run has.
pub open spec fn unknown_state(name: Seq<char>) -> Seq<char> {
    "unknown variant `"@ + name
        + "`, expected one of `running`, `finished`, `failed`, `canceled`, `cancel_requested`, `interrupted`"@
}

/// What is said of a value that is not what a field wants.
pub open spec fn mismatch(value: JsonView, kind: FieldKind) -> Seq<char> {
    match (kind, value) {
        (FieldKind::State, JsonView::Text(name)) => unknown_state(name),
        (FieldKind::State, JsonView::Object(members)) => if members.len() != 1 {
            "invalid value: map, expected map with a single key"@
        } else if protocol::state_named(members[0].0) is None {
            unknown_state(members[0].0)
        } else {
            "invalid type: "@ + unexpected(members[0].1) + ", expected unit"@
        },
        (FieldKind::Texts, JsonView::Array(items)) => match first_not_text(items) {
            Some(item) => plain_mismatch(item, FieldKind::Text),
            None => plain_mismatch(value, kind),
        },
        _ => plain_mismatch(value, kind),
    }
}

/// What is said of a value as a whole that is not what a field wants. A whole number is wrong in its
/// value; all else is wrong in its type.
pub open spec fn plain_mismatch(value: JsonView, kind: FieldKind) -> Seq<char> {
    (if counts(kind) && value is Number && is_whole(value->Number_0) {
        "invalid value: "@
    } else {
        "invalid type: "@
    }) + unexpected(value) + ", expected "@ + wanted(kind)
}

/// The names of fields, each in back quotes.
pub open spec fn ticked(fields: Seq<Field>) -> Seq<Seq<char>> {
    Seq::new(fields.len(), |i: int| "`"@ + fields[i].name@ + "`"@)
}

/// The names of fields, as one of them is asked for.
pub open spec fn one_of(fields: Seq<Field>) -> Seq<char> {
    if fields.len() == 1 {
        ticked(fields)[0]
    } else if fields.len() == 2 {
        ticked(fields)[0] + " or "@ + ticked(fields)[1]
    } else {
        "one of "@ + text::joined(ticked(fields), ", "@)
    }
}

/// What is said of a member that is no field.
pub open spec fn unknown_words(name: Seq<char>, fields: Seq<Field>) -> Seq<char> {
    "unknown field `"@ + name + "`, "@ + if fields.len() == 0 {
        "there are no fields"@
    } else {
        "expected "@ + one_of(fields)
    }
}

/// What the first field named `name` wants.
pub open spec fn field_named(fields: Seq<Field>, name: Seq<char>) -> Option<FieldKind>
    decreases fields.len(),
{
    if fields.len() == 0 {
        None
    } else if fields[0].name@ == name {
        Some(fields[0].kind)
    } else {
        field_named(fields.drop_first(), name)
    }
}

/// What is wrong with the member `name` of a value.
pub open spec fn member_complaint(value: JsonView, name: Seq<char>, fields: Seq<Field>) -> Option<
    Seq<char>,
> {
    match field_named(fields, name) {
        None => Some(unknown_words(name, fields)),
        Some(kind) => if field_fits(member_of(value, name), kind) {
            None
        } else {
            Some(mismatch(member_of(value, name)->Some_0, kind))
        },
    }
}

/// What is wrong with the first of the members of a value with which something is.
pub open spec fn first_complaint(
    value: JsonView,
    members: Seq<(Seq<char>, JsonView)>,
    fields: Seq<Field>,
) -> Option<Seq<char>>
    decreases members.len(),
{
    if members.len() == 0 {
        None
    } else {
        match member_complaint(value, members[0].0, fields) {
            Some(message) => Some(message),
            None => first_complaint(value, members.drop_first(), fields),
        }
    }
}

/// What is said of a field that is not what it must be.
pub open spec fn unfit_words(value: JsonView, field: Field) -> Seq<char> {
    match member_of(value, field.name@) {
        None => "missing field `"@ + field.name@ + "`"@,
        Some(given) => mismatch(given, field.kind),
    }
}

/// What is said of the first field that is not what it must be.
pub open spec fn first_unfit(value: JsonView, fields: Seq<Field>) -> Option<Seq<char>>
    decreases fields.len(),
{
    if fields.len() == 0 {
        None
    } else if !field_fits(member_of(value, fields[0].name@), fields[0].kind) {
        Some(unfit_words(value, fields[0]))
    } else {
        first_unfit(value, fields.drop_first())
    }
}

/// The members that a list tells in the order of the fields; what is too much in it is left out.
pub open spec fn told(items: Seq<JsonView>, fields: Seq<Field>) -> Seq<(Seq<char>, JsonView)> {
    Seq::new(
        if items.len() <= fields.len() {
            items.len()
        } else {
            fields.len()
        },
        |i: int| (fields[i].name@, items[i]),
    )
}

/// What is said of a list that is too short to tell the fields.
pub open spec fn too_short(title: Seq<char>, count: nat, due: nat) -> Seq<char> {
    "invalid length "@ + text::decimal(count) + ", expected struct "@ + title + if due == 1 {
        " with 1 element"@
    } else {
        " with "@ + text::decimal(due) + " elements"@
    }
}

/// What is wrong with a value that should be a `title` with the given fields and no others; nothing
/// where it is one. A list tells at least `least` of the fields, in their order.
pub open spec fn complaint(
    value: JsonView,
    title: Seq<char>,
    fields: Seq<Field>,
    least: nat,
) -> Option<Seq<char>> {
    match value {
        JsonView::Object(members) => match first_complaint(value, members, fields) {
            Some(message) => Some(message),
            None => first_unfit(value, fields),
        },
        JsonView::Array(items) => {
            let named = JsonView::Object(told(items, fields));
            match first_complaint(named, told(items, fields), fields) {
                Some(message) => Some(message),
                None => if items.len() > fields.len() {
                    Some(
                        "invalid length "@ + text::decimal(items.len())
                            + ", expected fewer elements in array"@,
                    )
                } else if items.len() < least || first_unfit(named, fields) is Some {
                    Some(too_short(title, items.len(), fields.len()))
                } else {
                    None
                },
            }
        },
        _ => Some("invalid type: "@ + unexpected(value) + ", expected struct "@ + title),
    }
}

/// The members that are fields.
pub open spec fn known_members(members: Seq<(Seq<char>, JsonView)>, fields: Seq<Field>) -> Seq<
    (Seq<char>, JsonView),
>
    decreases members.len(),
{
    if members.len() == 0 {
        Seq::empty()
    } else {
        let before = known_members(members.drop_last(), fields);
        if field_named(fields, members.last().0) is Some {
            before.push(members.last())
        } else {
            before
        }
    }
}

/// A value without the members that are no fields.
pub open spec fn known(value: JsonView, fields: Seq<Field>) -> JsonView {
    match value {
        JsonView::Object(members) => JsonView::Object(known_members(members, fields)),
        _ => value,
    }
}

/// Nothing is wrong with a value exactly where, with its members named, it has the given fields and no
/// others.
pub proof fn lemma_complaint(value: JsonView, title: Seq<char>, fields: Seq<Field>, least: nat)
    ensures
        complaint(value, title, fields, least) is None <==> conforms(
            by_name(value, fields, least),
            fields,
        ),
{
    match value {
        JsonView::Object(members) => lemma_named(members, fields),
        JsonView::Array(items) => {
            lemma_named(told(items, fields), fields);
            if least <= items.len() <= fields.len() {
                assert(by_name(value, fields, least)->Object_0 =~= told(items, fields));
            }
        },
        _ => {},
    }
}

proof fn lemma_named(members: Seq<(Seq<char>, JsonView)>, fields: Seq<Field>)
    ensures
        ({
            let value = JsonView::Object(members);
            (first_complaint(value, members, fields) is None && first_unfit(value, fields) is None)
                <==> conforms(value, fields)
        }),
{
    let value = JsonView::Object(members);
    lemma_first_unfit(value, fields);
    lemma_first_complaint(value, members, fields);
}

/// What is found by a name is what a field of that name wants; nothing is found where no field has it.
pub proof fn lemma_field_named(fields: Seq<Field>, name: Seq<char>)
    ensures
        match field_named(fields, name) {
            None => !has_field(fields, name),
            Some(kind) => exists|i: int|
                0 <= i < fields.len() && (#[trigger] fields[i]).name@ == name && fields[i].kind
                    == kind,
        },
    decreases fields.len(),
{
    if fields.len() > 0 && fields[0].name@ != name {
        let rest = fields.drop_first();
        lemma_field_named(rest, name);
        match field_named(rest, name) {
            Some(kind) => {
                let i = choose|i: int|
                    0 <= i < rest.len() && (#[trigger] rest[i]).name@ == name && rest[i].kind
                        == kind;
                assert(fields[i + 1] == rest[i]);
            },
            None => {
                if has_field(fields, name) {
                    let i = choose|i: int|
                        0 <= i < fields.len() && (#[trigger] fields[i]).name@ == name;
                    assert(rest[i - 1] == fields[i]);
                }
            },
        }
    }
}

proof fn lemma_first_complaint(
    value: JsonView,
    members: Seq<(Seq<char>, JsonView)>,
    fields: Seq<Field>,
)
    ensures
        first_complaint(value, members, fields) is None ==> (forall|i: int|
            0 <= i < members.len() ==> has_field(fields, (#[trigger] members[i]).0)),
        (forall|i: int| 0 <= i < members.len() ==> has_field(fields, (#[trigger] members[i]).0))
            && (forall|i: int|
            0 <= i < fields.len() ==> field_fits(
                member_of(value, (#[trigger] fields[i]).name@),
                fields[i].kind,
            )) ==> first_complaint(value, members, fields) is None,
    decreases members.len(),
{
    if members.len() > 0 {
        let rest = members.drop_first();
        lemma_field_named(fields, members[0].0);
        lemma_first_complaint(value, rest, fields);
        assert forall|i: int| 0 < i < members.len() implies #[trigger] members[i] == rest[i - 1] by {}
        if first_complaint(value, members, fields) is None {
            assert forall|i: int| 0 <= i < members.len() implies has_field(
                fields,
                (#[trigger] members[i]).0,
            ) by {
                if i > 0 {
                    assert(has_field(fields, rest[i - 1].0));
                }
            }
        }
        if forall|i: int| 0 <= i < members.len() ==> has_field(fields, (#[trigger] members[i]).0) {
            assert forall|i: int| 0 <= i < rest.len() implies has_field(
                fields,
                (#[trigger] rest[i]).0,
            ) by {
                assert(members[i + 1] == rest[i]);
            }
            assert(has_field(fields, members[0].0));
        }
    }
}

proof fn lemma_first_unfit(value: JsonView, fields: Seq<Field>)
    ensures
        first_unfit(value, fields) is None <==> (forall|i: int|
            0 <= i < fields.len() ==> field_fits(
                member_of(value, (#[trigger] fields[i]).name@),
                fields[i].kind,
            )),
    decreases fields.len(),
{
    if fields.len() > 0 && field_fits(member_of(value, fields[0].name@), fields[0].kind) {
        let rest = fields.drop_first();
        lemma_first_unfit(value, rest);
        if first_unfit(value, rest) is None {
            assert forall|i: int| 0 <= i < fields.len() implies field_fits(
                member_of(value, (#[trigger] fields[i]).name@),
                fields[i].kind,
            ) by {
                if i > 0 {
                    assert(rest[i - 1] == fields[i]);
                }
            }
        } else {
            let i = choose|i: int|
                0 <= i < rest.len() && !field_fits(
                    member_of(value, (#[trigger] rest[i]).name@),
                    rest[i].kind,
                );
            assert(fields[i + 1] == rest[i]);
        }
    } else if fields.len() > 0 {
        assert(!field_fits(member_of(value, fields[0].name@), fields[0].kind));
    }
}

fn want(kind: FieldKind) -> (r: &'static str)
    ensures
        r@ == wanted(kind),
{
    match kind {
        FieldKind::Text => "a string",
        FieldKind::OptionalText => "a string",
        FieldKind::Number => "u64",
        FieldKind::OptionalNumber => "u64",
        FieldKind::Number32 => "u32",
        FieldKind::OptionalSize => "usize",
        FieldKind::OptionalFlag => "a boolean",
        FieldKind::Variant => "string or map",
        FieldKind::State => "string or map",
        FieldKind::Texts => "a sequence",
        FieldKind::Values => "a sequence",
        FieldKind::Value => "any value",
        FieldKind::OptionalValue => "any value",
    }
}

fn whole(numeral: &str) -> (r: bool)
    ensures
        r == is_whole(numeral@),
{
    parse_u64(numeral).is_some() || parse_i64(numeral).is_some()
}

fn tick(fields: &Vec<Field>) -> (r: Vec<String>)
    ensures
        text::views(r@) == ticked(fields@),
{
    let mut r: Vec<String> = Vec::new();
    for i in 0..fields.len()
        invariant
            r@.len() == i,
            forall|k: int| 0 <= k < i ==> (#[trigger] r@[k])@ == ticked(fields@)[k],
    {
        r.push(text::text3("`", fields[i].name, "`"));
    }
    assert(text::views(r@) =~= ticked(fields@));
    r
}

fn unknown_message(name: &str, fields: &Vec<Field>) -> (r: String)
    ensures
        r@ == unknown_words(name@, fields@),
{
    let names = tick(fields);
    assert(text::views(names@).len() == names@.len());
    let expected = if fields.len() == 0 {
        "there are no fields".to_owned()
    } else if fields.len() == 1 {
        assert(text::views(names@)[0] == names@[0]@);
        text::text2("expected ", names[0].as_str())
    } else if fields.len() == 2 {
        assert(text::views(names@)[0] == names@[0]@);
        assert(text::views(names@)[1] == names@[1]@);
        let one = text::text3(names[0].as_str(), " or ", names[1].as_str());
        text::text2("expected ", one.as_str())
    } else {
        let one = text::text2("one of ", text::join(&names, ", ").as_str());
        text::text2("expected ", one.as_str())
    };
    text::text4("unknown field `", name, "`, ", expected.as_str())
}

fn unknown_state_message(name: &str) -> (r: String)
    ensures
        r@ == unknown_state(name@),
{
    text::text3(
        "unknown variant `",
        name,
        "`, expected one of `running`, `finished`, `failed`, `canceled`, `cancel_requested`, `interrupted`",
    )
}

fn find_not_text(items: &Vec<Json>) -> (r: Option<usize>)
    ensures
        match r {
            Some(at) => at < items@.len() && first_not_text(json_views(items@)) == Some(
                items@[at as int]@,
            ),
            None => first_not_text(json_views(items@)) is None,
        },
{
    let ghost all = json_views(items@);
    assert(all.skip(0) =~= all);
    let mut i: usize = 0;
    while i < items.len()
        invariant
            0 <= i <= items@.len(),
            all == json_views(items@),
            first_not_text(all) == first_not_text(all.skip(i as int)),
        decreases items@.len() - i,
    {
        assert(all.skip(i as int)[0] == items@[i as int]@);
        assert(all.skip(i as int).drop_first() =~= all.skip(i + 1));
        if items[i].as_str().is_none() {
            return Some(i);
        }
        i += 1;
    }
    assert(all.skip(all.len() as int).len() == 0);
    None
}

fn find_field(fields: &Vec<Field>, name: &str) -> (r: Option<FieldKind>)
    ensures
        r == field_named(fields@, name@),
{
    let mut j: usize = 0;
    assert(fields@.skip(0) =~= fields@);
    while j < fields.len()
        invariant
            0 <= j <= fields@.len(),
            field_named(fields@, name@) == field_named(fields@.skip(j as int), name@),
        decreases fields@.len() - j,
    {
        assert(fields@.skip(j as int)[0] == fields@[j as int]);
        assert(fields@.skip(j as int).drop_first() =~= fields@.skip(j + 1));
        if text::same_text(fields[j].name, name) {
            return Some(fields[j].kind);
        }
        j += 1;
    }
    assert(fields@.skip(fields@.len() as int).len() == 0);
    None
}

impl Json {
    fn describe(&self) -> (r: String)
        ensures
            r@ == unexpected(self@),
    {
        match self {
            Json::Null => "null".to_owned(),
            Json::Bool(b) => if *b {
                "boolean `true`".to_owned()
            } else {
                "boolean `false`".to_owned()
            },
            Json::Number(numeral) => if whole(numeral.as_str()) {
                text::text3("integer `", numeral.as_str(), "`")
            } else {
                text::text3("floating point `", numeral.as_str(), "`")
            },
            Json::Text(text) => text::text2("string ", text::debug_text(text.as_str()).as_str()),
            Json::Array(_) => "sequence".to_owned(),
            Json::Object(_) => "map".to_owned(),
        }
    }

    fn differs(&self, kind: FieldKind) -> (r: String)
        ensures
            r@ == mismatch(self@, kind),
    {
        match (kind, self) {
            (FieldKind::State, Json::Text(name)) => unknown_state_message(name.as_str()),
            (FieldKind::State, Json::Object(members)) => {
                proof {
                    lemma_object_view(*members);
                }
                if members.len() != 1 {
                    return "invalid value: map, expected map with a single key".to_owned();
                }
                assert(self@->Object_0[0] == (members@[0].name@, members@[0].value@));
                let name = members[0].name.as_str();
                if RunStateName::from_name(name).is_none() {
                    unknown_state_message(name)
                } else {
                    text::text3(
                        "invalid type: ",
                        members[0].value.describe().as_str(),
                        ", expected unit",
                    )
                }
            },
            (FieldKind::Texts, Json::Array(items)) => {
                proof {
                    lemma_array_view(*items);
                }
                match find_not_text(items) {
                    Some(at) => items[at].differs_as_a_whole(FieldKind::Text),
                    None => self.differs_as_a_whole(kind),
                }
            },
            _ => self.differs_as_a_whole(kind),
        }
    }

    fn differs_as_a_whole(&self, kind: FieldKind) -> (r: String)
        ensures
            r@ == plain_mismatch(self@, kind),
    {
        let counted = match kind {
            FieldKind::Number | FieldKind::OptionalNumber | FieldKind::Number32
            | FieldKind::OptionalSize => true,
            _ => false,
        };
        let in_value = match self {
            Json::Number(numeral) => counted && whole(numeral.as_str()),
            _ => false,
        };
        let start = if in_value {
            "invalid value: "
        } else {
            "invalid type: "
        };
        text::text4(start, self.describe().as_str(), ", expected ", want(kind))
    }

    fn find_complaint(&self, fields: &Vec<Field>) -> (r: Option<String>)
        requires
            self@ is Object,
        ensures
            text::opt_view(r) == first_complaint(self@, self@->Object_0, fields@),
    {
        let members = match self {
            Json::Object(members) => members,
            _ => {
                return None;
            },
        };
        proof {
            lemma_object_view(*members);
        }
        let ghost all = member_views(members@);
        assert(all.skip(0) =~= all);
        let mut i: usize = 0;
        while i < members.len()
            invariant
                0 <= i <= members@.len(),
                all == member_views(members@),
                self@ == JsonView::Object(all),
                first_complaint(self@, all, fields@) == first_complaint(
                    self@,
                    all.skip(i as int),
                    fields@,
                ),
            decreases members@.len() - i,
        {
            assert(all.skip(i as int)[0] == all[i as int]);
            assert(all.skip(i as int).drop_first() =~= all.skip(i + 1));
            let name = members[i].name.as_str();
            match find_field(fields, name) {
                None => {
                    return Some(unknown_message(name, fields));
                },
                Some(kind) => {
                    proof {
                        lemma_present(all, i as int);
                    }
                    if let Some(given) = self.get(name) {
                        if !given.suits(kind) {
                            return Some(given.differs(kind));
                        }
                    }
                },
            }
            i += 1;
        }
        assert(all.skip(all.len() as int).len() == 0);
        None
    }

    fn find_unfit(&self, fields: &Vec<Field>) -> (r: Option<String>)
        ensures
            text::opt_view(r) == first_unfit(self@, fields@),
    {
        assert(fields@.skip(0) =~= fields@);
        let mut j: usize = 0;
        while j < fields.len()
            invariant
                0 <= j <= fields@.len(),
                first_unfit(self@, fields@) == first_unfit(self@, fields@.skip(j as int)),
            decreases fields@.len() - j,
        {
            assert(fields@.skip(j as int)[0] == fields@[j as int]);
            assert(fields@.skip(j as int).drop_first() =~= fields@.skip(j + 1));
            if !self.fits(&fields[j]) {
                return match self.get(fields[j].name) {
                    None => Some(text::text3("missing field `", fields[j].name, "`")),
                    Some(given) => Some(given.differs(fields[j].kind)),
                };
            }
            j += 1;
        }
        assert(fields@.skip(fields@.len() as int).len() == 0);
        None
    }
}

fn tell(items: &Vec<Json>, fields: &Vec<Field>) -> (r: Json)
    ensures
        r@ == JsonView::Object(told(json_views(items@), fields@)),
{
    let mut members: Vec<Member> = Vec::new();
    let count: usize = if items.len() <= fields.len() {
        items.len()
    } else {
        fields.len()
    };
    for i in 0..count
        invariant
            count <= items@.len(),
            count <= fields@.len(),
            members@.len() == i,
            forall|k: int|
                0 <= k < i ==> (#[trigger] members@[k]).name@ == fields@[k].name@
                    && members@[k].value@ == items@[k]@,
    {
        members.push(Member::new(fields[i].name, items[i].clone()));
    }
    assert(member_views(members@) =~= told(json_views(items@), fields@));
    Json::object(members)
}

fn short_message(title: &str, count: usize, due: usize) -> (r: String)
    ensures
        r@ == too_short(title@, count as nat, due as nat),
{
    let ending = if due == 1 {
        " with 1 element".to_owned()
    } else {
        text::text3(" with ", text::decimal_usize(due).as_str(), " elements")
    };
    let mut r = text::text4(
        "invalid length ",
        text::decimal_usize(count).as_str(),
        ", expected struct ",
        title,
    );
    r.append(ending.as_str());
    r
}

proof fn lemma_present(members: Seq<(Seq<char>, JsonView)>, i: int)
    requires
        0 <= i < members.len(),
    ensures
        first_member(members, members[i].0) is Some,
    decreases members.len(),
{
    if members[0].0 != members[i].0 {
        assert(members.drop_first()[i - 1] == members[i]);
        lemma_present(members.drop_first(), i - 1);
    }
}

impl Json {
    /// The name that the value holds, by itself or as that of its one member.
    pub fn variant(&self) -> (r: Option<String>)
        ensures
            text::opt_view(r) == variant_in(Some(self@)),
    {
        match self {
            Json::Text(name) => Some(name.clone()),
            Json::Object(members) => {
                proof {
                    lemma_object_view(*members);
                }
                if members.len() != 1 {
                    return None;
                }
                assert(self@->Object_0[0] == (members@[0].name@, members@[0].value@));
                match &members[0].value {
                    Json::Null => Some(members[0].name.clone()),
                    _ => None,
                }
            },
            _ => None,
        }
    }

    /// The name that the member `name` holds.
    pub fn variant_member(&self, name: &str) -> (r: Option<String>)
        ensures
            text::opt_view(r) == variant_in(member_of(self@, name@)),
    {
        match self.get(name) {
            Some(value) => value.variant(),
            None => None,
        }
    }

    fn suits(&self, kind: FieldKind) -> (r: bool)
        ensures
            r == field_fits(Some(self@), kind),
    {
        let null = match self {
            Json::Null => true,
            _ => false,
        };
        match kind {
            FieldKind::Text => self.as_str().is_some(),
            FieldKind::Number => self.as_u64().is_some(),
            FieldKind::Number32 => match self.as_u64() {
                Some(n) => n <= 0xffff_ffff,
                None => false,
            },
            FieldKind::Value => true,
            FieldKind::Variant => self.variant().is_some(),
            FieldKind::State => match self.variant() {
                Some(name) => RunStateName::from_name(name.as_str()).is_some(),
                None => false,
            },
            FieldKind::Texts => match self {
                Json::Array(items) => {
                    proof {
                        lemma_array_view(*items);
                    }
                    find_not_text(items).is_none()
                },
                _ => false,
            },
            FieldKind::Values => match self {
                Json::Array(_) => true,
                _ => false,
            },
            FieldKind::OptionalText => null || self.as_str().is_some(),
            FieldKind::OptionalNumber => null || self.as_u64().is_some(),
            FieldKind::OptionalSize => null || self.as_u64().is_some(),
            FieldKind::OptionalFlag => null || self.as_bool().is_some(),
            FieldKind::OptionalValue => true,
        }
    }

    /// Whether the member that `field` names, or its absence, is what the field wants.
    pub fn fits(&self, field: &Field) -> (r: bool)
        ensures
            r == field_fits(member_of(self@, field.name@), field.kind),
    {
        match self.get(field.name) {
            None => match field.kind {
                FieldKind::Text | FieldKind::Number | FieldKind::Number32
                | FieldKind::Value | FieldKind::Variant | FieldKind::State | FieldKind::Texts
                | FieldKind::Values => false,
                _ => true,
            },
            Some(value) => value.suits(field.kind),
        }
    }

    /// The value with its members named: what is told in a list, in the order of the fields, is told
    /// by their names.
    pub fn by_name(&self, fields: &Vec<Field>, least: usize) -> (r: Json)
        ensures
            r@ == by_name(self@, fields@, least as nat),
    {
        let items = match self {
            Json::Array(items) => items,
            _ => {
                return self.clone();
            },
        };
        proof {
            lemma_array_view(*items);
        }
        if items.len() < least || items.len() > fields.len() {
            return self.clone();
        }
        let mut members: Vec<Member> = Vec::new();
        for i in 0..items.len()
            invariant
                items@.len() <= fields@.len(),
                members@.len() == i,
                forall|k: int|
                    0 <= k < i ==> (#[trigger] members@[k]).name@ == fields@[k].name@
                        && members@[k].value@ == items@[k]@,
        {
            members.push(Member::new(fields[i].name, items[i].clone()));
        }
        assert(member_views(members@) =~= by_name(self@, fields@, least as nat)->Object_0);
        Json::object(members)
    }

    /// The value with its members named: a list that tells all of them, in the order of `names`, is
    /// told by their names.
    pub fn listed(&self, names: &Vec<&'static str>) -> (r: Json)
        ensures
            r@ == listed(self@, text::str_views(names@)),
    {
        let mut fields: Vec<Field> = Vec::new();
        for i in 0..names.len()
            invariant
                fields@.len() == i,
                forall|k: int| 0 <= k < i ==> (#[trigger] fields@[k]).name@ == names@[k]@,
        {
            fields.push(Field { name: names[i], kind: FieldKind::OptionalValue });
        }
        let r = self.by_name(&fields, fields.len());
        proof {
            let wanted = listed(self@, text::str_views(names@));
            if wanted is Object && self@ is Array {
                assert(r@->Object_0 =~= wanted->Object_0);
            }
        }
        r
    }

    /// The value without the members that are no fields.
    pub fn known(&self, fields: &Vec<Field>) -> (r: Json)
        ensures
            r@ == known(self@, fields@),
    {
        let members = match self {
            Json::Object(members) => members,
            _ => {
                return self.clone();
            },
        };
        proof {
            lemma_object_view(*members);
        }
        let ghost all = member_views(members@);
        let mut kept: Vec<Member> = Vec::new();
        assert(all.take(0) =~= Seq::empty());
        assert(member_views(kept@) =~= Seq::empty());
        for i in 0..members.len()
            invariant
                all == member_views(members@),
                member_views(kept@) == known_members(all.take(i as int), fields@),
        {
            assert(all.take(i + 1).drop_last() =~= all.take(i as int));
            assert(all.take(i + 1).last() == all[i as int]);
            let member = &members[i];
            if find_field(fields, member.name.as_str()).is_some() {
                let ghost before = member_views(kept@);
                kept.push(Member::new(member.name.as_str(), member.value.clone()));
                assert(member_views(kept@) =~= before.push(all[i as int]));
            }
        }
        assert(all.take(all.len() as int) =~= all);
        Json::object(kept)
    }

    /// Whether the value is a `title` with the given fields and no others; if it is not, what is wrong
    /// with it.
    pub fn check_fields(&self, title: &str, fields: &Vec<Field>, least: usize) -> (r: Result<
        (),
        String,
    >)
        ensures
            r is Ok <==> conforms(by_name(self@, fields@, least as nat), fields@),
            r is Ok <==> complaint(self@, title@, fields@, least as nat) is None,
            r matches Err(message) ==> complaint(self@, title@, fields@, least as nat) == Some(
                message@,
            ),
    {
        proof {
            lemma_complaint(self@, title@, fields@, least as nat);
        }
        match self {
            Json::Object(_) => match self.find_complaint(fields) {
                Some(message) => Err(message),
                None => match self.find_unfit(fields) {
                    Some(message) => Err(message),
                    None => Ok(()),
                },
            },
            Json::Array(items) => {
                proof {
                    lemma_array_view(*items);
                }
                let named = tell(items, fields);
                if let Some(message) = named.find_complaint(fields) {
                    return Err(message);
                }
                if items.len() > fields.len() {
                    return Err(
                        text::text3(
                            "invalid length ",
                            text::decimal_usize(items.len()).as_str(),
                            ", expected fewer elements in array",
                        ),
                    );
                }
                if items.len() < least || named.find_unfit(fields).is_some() {
                    return Err(short_message(title, items.len(), fields.len()));
                }
                Ok(())
            },
            _ => {
                let given = self.describe();
                Err(text::text4("invalid type: ", given.as_str(), ", expected struct ", title))
            },
        }
    }

    /// The unsigned number that the member `name` is, if it is one.
    pub fn number_member(&self, name: &str) -> (r: Option<u64>)
        ensures
            r == u64_in(member_of(self@, name@)),
    {
        match self.get(name) {
            Some(value) => value.as_u64(),
            None => None,
        }
    }

    /// The value of the member `name`, where there is one and it is not null.
    pub fn value_member(&self, name: &str) -> (r: Option<Json>)
        ensures
            opt_json(r) == value_in(member_of(self@, name@)),
    {
        match self.get(name) {
            Some(Json::Null) => None,
            Some(value) => Some(value.clone()),
            None => None,
        }
    }

    /// The items of the member `name`, if it is an array.
    pub fn array_member(&self, name: &str) -> (r: Option<Vec<Json>>)
        ensures
            r is Some <==> (member_of(self@, name@) matches Some(JsonView::Array(_))),
            r matches Some(items) ==> member_of(self@, name@) == Some(
                JsonView::Array(json_views(items@)),
            ),
    {
        match self.get(name) {
            Some(Json::Array(items)) => {
                proof {
                    lemma_array_view(*items);
                }
                let mut copies: Vec<Json> = Vec::new();
                for i in 0..items.len()
                    invariant
                        copies@.len() == i,
                        forall|j: int| 0 <= j < i ==> (#[trigger] copies@[j])@ == items@[j]@,
                {
                    copies.push(items[i].clone());
                }
                assert(json_views(copies@) =~= json_views(items@));
                Some(copies)
            },
            _ => None,
        }
    }

    /// The truth value that the member `name` is, if it is one.
    pub fn flag_member(&self, name: &str) -> (r: Option<bool>)
        ensures
            r == flag_in(member_of(self@, name@)),
    {
        match self.get(name) {
            Some(value) => value.as_bool(),
            None => None,
        }
    }
}

/// What an optional value stands for.
pub open spec fn opt_json(value: Option<Json>) -> Option<JsonView> {
    match value {
        Some(v) => Some(v@),
        None => None,
    }
}

/// An optional value, where it is not null.
pub open spec fn value_in(value: Option<JsonView>) -> Option<JsonView> {
    match value {
        Some(JsonView::Null) => None,
        other => other,
    }
}

/// The truth value that an optional value holds.
pub open spec fn flag_in(value: Option<JsonView>) -> Option<bool> {
    match value {
        Some(JsonView::Bool(b)) => Some(b),
        _ => None,
    }
}

/// The number that a numeral stands for, where it fits in 64 bits with a sign.
pub open spec fn numeral_i64(numeral: Seq<char>) -> Option<i64> {
    if numeral.len() > 0 && numeral[0] == '-' {
        let digits = numeral.skip(1);
        if is_natural(digits) && natural_value(digits) <= 0x8000_0000_0000_0000 {
            Some((-(natural_value(digits) as int)) as i64)
        } else {
            None
        }
    } else if is_natural(numeral) && natural_value(numeral) <= i64::MAX {
        Some(natural_value(numeral) as i64)
    } else {
        None
    }
}

/// The number that an optional value holds.
pub open spec fn i64_in(value: Option<JsonView>) -> Option<i64> {
    match value {
        Some(JsonView::Number(numeral)) => numeral_i64(numeral),
        _ => None,
    }
}

/// Reads a number out of a numeral.
pub fn parse_i64(numeral: &str) -> (r: Option<i64>)
    ensures
        r == numeral_i64(numeral@),
{
    let chars = text::chars_of(numeral);
    if chars.len() > 0 && chars[0] == '-' {
        let digits = text::text_between(&chars, 1, chars.len());
        assert(digits@ =~= numeral@.skip(1));
        match parse_u64(digits.as_str()) {
            Some(n) => if n < 0x8000_0000_0000_0000 {
                Some(-(n as i64))
            } else if n == 0x8000_0000_0000_0000 {
                Some(i64::MIN)
            } else {
                None
            },
            None => None,
        }
    } else {
        match parse_u64(numeral) {
            Some(n) => if n <= 0x7fff_ffff_ffff_ffff {
                Some(n as i64)
            } else {
                None
            },
            None => None,
        }
    }
}

impl Json {
    /// The number in a member.
    pub fn signed_member(&self, name: &str) -> (r: Option<i64>)
        ensures
            r == i64_in(member_of(self@, name@)),
    {
        match self.get(name) {
            Some(Json::Number(numeral)) => parse_i64(numeral.as_str()),
            _ => None,
        }
    }
}

/// A member is found by its name: the first that has it, and none only where none has it.
pub proof fn law_members_are_found_by_name(members: Seq<(Seq<char>, JsonView)>, name: Seq<char>)
    ensures
        first_member(members, name) is None <==> forall|i: int|
            0 <= i < members.len() ==> (#[trigger] members[i]).0 != name,
        first_member(members, name) matches Some(value) ==> exists|i: int|
            0 <= i < members.len() && (#[trigger] members[i]) == (name, value) && forall|j: int|
                0 <= j < i ==> (#[trigger] members[j]).0 != name,
    decreases members.len(),
{
    if members.len() > 0 {
        let rest = members.drop_first();
        law_members_are_found_by_name(rest, name);
        if members[0].0 == name {
            assert(members[0] == (name, members[0].1));
        } else if let Some(value) = first_member(rest, name) {
            let i = choose|i: int|
                0 <= i < rest.len() && (#[trigger] rest[i]) == (name, value) && forall|j: int|
                    0 <= j < i ==> (#[trigger] rest[j]).0 != name;
            assert(members[i + 1] == (name, value));
            assert forall|j: int| 0 <= j < i + 1 implies (#[trigger] members[j]).0 != name by {
                if j > 0 {
                    assert(rest[j - 1] == members[j]);
                }
            }
        } else {
            assert forall|i: int| 0 <= i < members.len() implies (#[trigger] members[i]).0
                != name by {
                if i > 0 {
                    assert(rest[i - 1] == members[i]);
                }
            }
        }
    }
}

/// A value is taken only for what it is: a text as a text, a flag as a flag, a number as a number, and
/// nothing is what is null or not there.
pub proof fn law_values_are_taken_for_what_they_are(value: JsonView)
    ensures
        text_in(Some(value)) is Some <==> value is Text,
        value matches JsonView::Text(text) ==> text_in(Some(value)) == Some(text),
        flag_in(Some(value)) is Some <==> value is Bool,
        value matches JsonView::Bool(b) ==> flag_in(Some(value)) == Some(b),
        u64_in(Some(value)) is Some ==> value is Number,
        i64_in(Some(value)) is Some ==> value is Number,
        value_in(Some(value)) is None <==> value is Null,
        !(value is Null) ==> value_in(Some(value)) == Some(value),
        text_in(None) is None && flag_in(None) is None && u64_in(None) is None && i64_in(None)
            is None && value_in(None) is None,
{
}

/// A field takes just the values of its kind; an optional one also takes null, and may be left out.
pub proof fn law_fields_take_their_kind(value: JsonView)
    ensures
        field_fits(Some(value), FieldKind::Text) <==> value is Text,
        field_fits(Some(value), FieldKind::OptionalText) <==> value is Text || value is Null,
        field_fits(Some(value), FieldKind::Number) <==> u64_in(Some(value)) is Some,
        field_fits(Some(value), FieldKind::OptionalNumber) <==> u64_in(Some(value)) is Some || value
            is Null,
        field_fits(Some(value), FieldKind::OptionalFlag) <==> value is Bool || value is Null,
        field_fits(Some(value), FieldKind::Values) <==> value is Array,
        field_fits(Some(value), FieldKind::Number32) ==> (u64_in(Some(value)) matches Some(n) && n
            <= u32::MAX),
        !field_fits(None, FieldKind::Text) && !field_fits(None, FieldKind::Number) && !field_fits(
            None,
            FieldKind::Number32,
        ) && !field_fits(None, FieldKind::Value) && !field_fits(None, FieldKind::Variant)
            && !field_fits(None, FieldKind::Values) && !field_fits(None, FieldKind::Texts)
            && !field_fits(None, FieldKind::State),
        field_fits(None, FieldKind::OptionalText) && field_fits(None, FieldKind::OptionalNumber)
            && field_fits(None, FieldKind::OptionalFlag) && field_fits(
            None,
            FieldKind::OptionalSize,
        ) && field_fits(None, FieldKind::OptionalValue),
{
}

/// Lists and objects are written with what they hold, in order, between their brackets and with commas
/// between; a member is its name in quotes, a colon and its value.
pub proof fn law_values_are_written_in_order(
    items: Seq<JsonView>,
    item: JsonView,
    members: Seq<(Seq<char>, JsonView)>,
    name: Seq<char>,
)
    ensures
        json_text(JsonView::Null) == "null"@,
        json_text(JsonView::Bool(true)) == "true"@,
        json_text(JsonView::Bool(false)) == "false"@,
        json_text(JsonView::Text(name)) == seq!['"'] + all_escaped(name) + seq!['"'],
        json_text(JsonView::Array(items)) == "["@ + items_text(items) + "]"@,
        json_text(JsonView::Object(members)) == "{"@ + members_text(members) + "}"@,
        items_text(Seq::empty()) == Seq::<char>::empty(),
        items_text(seq![item]) == json_text(item),
        items.len() > 0 ==> items_text(items.push(item)) == items_text(items) + ","@ + json_text(item),
        members_text(Seq::empty()) == Seq::<char>::empty(),
        members_text(seq![(name, item)]) == json_text(JsonView::Text(name)) + ":"@ + json_text(item),
        members.len() > 0 ==> members_text(members.push((name, item))) == members_text(members)
            + ","@ + (json_text(JsonView::Text(name)) + ":"@ + json_text(item)),
{
    assert(items.push(item).drop_last() =~= items);
    assert(members.push((name, item)).drop_last() =~= members);
}

/// What a text holds is written character by character: quotes, backslashes and control characters behind
/// a backslash, and everything else as it is.
pub proof fn law_texts_are_escaped(text: Seq<char>, c: char)
    ensures
        all_escaped(Seq::empty()) == Seq::<char>::empty(),
        all_escaped(text.push(c)) == all_escaped(text) + escaped(c),
        c as u32 >= 32 && c != '"' && c != '\\' ==> escaped(c) == seq![c],
        c == '"' || c == '\\' ==> escaped(c) == seq!['\\', c],
        c == '\n' ==> escaped(c) == seq!['\\', 'n'],
        c == '\t' ==> escaped(c) == seq!['\\', 't'],
        c == '\r' ==> escaped(c) == seq!['\\', 'r'],
        (c as u32) < 32 ==> escaped(c).len() >= 2 && escaped(c)[0] == '\\',
{
    assert(text.push(c).drop_last() =~= text);
}

/// A path of names leads from member to member.
pub proof fn law_paths_lead_from_member_to_member(
    value: JsonView,
    path: Seq<Seq<char>>,
    name: Seq<char>,
)
    ensures
        at_path(value, Seq::empty()) == Some(value),
        at_path(value, path) matches Some(inner) ==> at_path(value, path.push(name)) == member_of(
            inner,
            name,
        ),
        at_path(value, path) is None ==> at_path(value, path.push(name)) is None,
{
    assert(path.push(name).drop_last() =~= path);
}

/// A number that is written is read back as it was, negative ones too.
pub proof fn law_numbers_are_read_back(n: u64)
    ensures
        numeral_u64(text::decimal(n as nat)) == Some(n),
        n <= i64::MAX ==> numeral_i64(text::decimal(n as nat)) == Some(n as i64),
        0 < n <= 0x8000_0000_0000_0000 ==> (numeral_i64(text::decimal_int(-(n as int))) matches Some(
            read,
        ) && read == -(n as int)),
{
    lemma_decimal_is_read_back(n as nat);
    let digits = text::decimal(n as nat);
    assert(digits[0] != '-') by {
        assert(48 <= digits[0] as u32 <= 57);
    }
    if 0 < n {
        let numeral = text::decimal_int(-(n as int));
        assert(numeral.skip(1) =~= digits);
    }
}

/// Only a name that no field has is told as unknown, and only a field that is needed as missing; each is
/// named.
pub proof fn law_faults_name_their_field(
    value: JsonView,
    name: Seq<char>,
    fields: Seq<Field>,
    field: Field,
)
    ensures
        field_named(fields, name) is None <==> !has_field(fields, name),
        field_named(fields, name) is None ==> member_complaint(value, name, fields) == Some(
            unknown_words(name, fields),
        ),
        member_of(value, field.name@) is None ==> unfit_words(value, field) == "missing field `"@
            + field.name@ + "`"@,
        fields.len() > 0 ==> unknown_words(name, fields) == "unknown field `"@ + name + "`, "@ + (
        "expected "@ + one_of(fields)),
        fields.len() == 1 ==> one_of(fields) == "`"@ + fields[0].name@ + "`"@,
        fields.len() == 2 ==> one_of(fields) == "`"@ + fields[0].name@ + "`"@ + " or "@ + ("`"@
            + fields[1].name@ + "`"@),
{
    lemma_field_named(fields, name);
    if field_named(fields, name) is Some {
        let kind = field_named(fields, name)->Some_0;
        let i = choose|i: int|
            0 <= i < fields.len() && (#[trigger] fields[i]).name@ == name && fields[i].kind == kind;
        assert(fields[i].name@ == name);
    }
}

/// What is wrong with a value is something exactly where it is no object of the fields: where it has a
/// member that is none of them, or one of them does not fit.
pub proof fn law_only_faulty_objects_are_complained_of(
    members: Seq<(Seq<char>, JsonView)>,
    title: Seq<char>,
    fields: Seq<Field>,
    least: nat,
)
    ensures
        complaint(JsonView::Object(members), title, fields, least) is None <==> (forall|i: int|
            0 <= i < members.len() ==> has_field(fields, (#[trigger] members[i]).0)) && (forall|
            i: int,
        |
            0 <= i < fields.len() ==> field_fits(
                first_member(members, (#[trigger] fields[i]).name@),
                fields[i].kind,
            )),
{
    let value = JsonView::Object(members);
    lemma_complaint(value, title, fields, least);
    assert(value->Object_0 == members);
    assert forall|i: int| 0 <= i < fields.len() implies member_of(
        value,
        (#[trigger] fields[i]).name@,
    ) == first_member(members, fields[i].name@) by {}
}

} // verus!
