//! The members that stand in the text of a JSON object, each as often as it stands there.
use crate::json;
use crate::json::{Json, JsonView};
use crate::text;
use vstd::prelude::*;

verus! {

/// How far the text of an object was gone through.
pub struct ScanView {
    /// How many brackets are open.
    pub depth: nat,
    /// Whether a string is open.
    pub quoted: bool,
    /// Whether the next character of the string is escaped.
    pub escaped: bool,
    /// The string that is open, or else the last one, as it is written.
    pub word: Seq<char>,
    /// Whether a value of the object is gone through.
    pub in_value: bool,
    /// The members so far: the name of each and its value, as they are written.
    pub members: Seq<(Seq<char>, Seq<char>)>,
}

/// Where the text of an object starts.
pub open spec fn scan_start() -> ScanView {
    ScanView {
        depth: 0,
        quoted: false,
        escaped: false,
        word: Seq::empty(),
        in_value: false,
        members: Seq::empty(),
    }
}

/// The members with `part` behind the last value, where a value is gone through.
pub open spec fn value_grown(scan: ScanView, part: Seq<char>) -> Seq<(Seq<char>, Seq<char>)> {
    if scan.in_value && scan.members.len() > 0 {
        scan.members.drop_last().push((scan.members.last().0, scan.members.last().1 + part))
    } else {
        scan.members
    }
}

/// One character more of the text. A colon behind a name begins a value; a comma, or the bracket that
/// closes the object, ends it.
pub open spec fn scan_step(scan: ScanView, c: char) -> ScanView {
    let grown = ScanView { members: value_grown(scan, seq![c]), ..scan };
    if scan.quoted {
        ScanView {
            word: scan.word.push(c),
            escaped: !scan.escaped && c == '\\',
            quoted: scan.escaped || c != '"',
            ..grown
        }
    } else if c == '"' {
        ScanView { quoted: true, escaped: false, word: seq![c], ..grown }
    } else if c == '{' || c == '[' {
        ScanView { depth: scan.depth + 1, ..grown }
    } else if c == '}' || c == ']' {
        if scan.depth <= 1 {
            ScanView { depth: 0, in_value: false, ..scan }
        } else {
            ScanView { depth: (scan.depth - 1) as nat, ..grown }
        }
    } else if c == ':' && scan.depth == 1 && !scan.in_value {
        ScanView {
            in_value: true,
            members: scan.members.push((scan.word, Seq::empty())),
            ..scan
        }
    } else if c == ',' && scan.depth == 1 {
        ScanView { in_value: false, ..scan }
    } else {
        grown
    }
}

/// All the characters of a text, one after the other.
pub open spec fn scanned(scan: ScanView, s: Seq<char>) -> ScanView
    decreases s.len(),
{
    if s.len() == 0 {
        scan
    } else {
        scan_step(scanned(scan, s.drop_last()), s.last())
    }
}

/// The members of the object that a text stands for, as they are written.
pub open spec fn written_members(s: Seq<char>) -> Seq<(Seq<char>, Seq<char>)> {
    scanned(scan_start(), s).members
}

/// The name that a string stands for.
pub open spec fn name_of(word: Seq<char>) -> Option<Seq<char>> {
    match json::json_parsed(word) {
        Ok(JsonView::Text(name)) => Some(name),
        _ => None,
    }
}

/// The names of members.
pub open spec fn names_of(members: Seq<(Seq<char>, Seq<char>)>) -> Seq<Option<Seq<char>>> {
    Seq::new(members.len(), |i: int| name_of(members[i].0))
}

/// The first of the `known` names that stands in a list for the second time.
pub open spec fn first_repeated(names: Seq<Option<Seq<char>>>, known: Seq<Seq<char>>) -> Option<
    Seq<char>,
>
    decreases names.len(),
{
    if names.len() == 0 {
        None
    } else {
        match first_repeated(names.drop_last(), known) {
            Some(name) => Some(name),
            None => match names.last() {
                Some(name) => if known.contains(name) && names.drop_last().contains(Some(name)) {
                    Some(name)
                } else {
                    None
                },
                None => None,
            },
        }
    }
}

/// The first of the `known` names that the object in a text has for the second time.
pub open spec fn repeated_in(s: Seq<char>, known: Seq<Seq<char>>) -> Option<Seq<char>> {
    first_repeated(names_of(written_members(s)), known)
}

/// The value of the first member named `name`, as it is written.
pub open spec fn value_written(members: Seq<(Seq<char>, Seq<char>)>, name: Seq<char>) -> Option<
    Seq<char>,
>
    decreases members.len(),
{
    if members.len() == 0 {
        None
    } else if name_of(members[0].0) == Some(name) {
        Some(members[0].1)
    } else {
        value_written(members.drop_first(), name)
    }
}

/// The first of the names that the object in a text has for the second time: one of `outer`, or one of
/// `inner` in the object that is its member `name`.
pub open spec fn repeated_within(
    s: Seq<char>,
    outer: Seq<Seq<char>>,
    name: Seq<char>,
    inner: Seq<Seq<char>>,
) -> Option<Seq<char>> {
    match repeated_in(s, outer) {
        Some(repeated) => Some(repeated),
        None => match value_written(written_members(s), name) {
            Some(value) => repeated_in(value, inner),
            None => None,
        },
    }
}

/// What is said of a name that stands in an object twice.
pub open spec fn repeated_words(name: Seq<char>) -> Seq<char> {
    "duplicate field `"@ + name + "`"@
}

proof fn lemma_scanned_add(scan: ScanView, a: Seq<char>, b: Seq<char>)
    ensures
        scanned(scan, a + b) == scanned(scanned(scan, a), b),
    decreases b.len(),
{
    if b.len() == 0 {
        assert(a + b =~= a);
    } else {
        lemma_scanned_add(scan, a, b.drop_last());
        assert((a + b).drop_last() =~= a + b.drop_last());
        assert((a + b).last() == b.last());
    }
}

proof fn lemma_scanned_one(scan: ScanView, c: char)
    ensures
        scanned(scan, seq![c]) == scan_step(scan, c),
{
    assert(seq![c].drop_last() =~= Seq::<char>::empty());
    assert(scanned(scan, seq![c].drop_last()) == scan);
}

/// What a scan is after a text that is part of a value, whatever string stood last in it.
spec fn passed(before: ScanView, s: Seq<char>, after: ScanView) -> bool {
    &&& after.depth == before.depth
    &&& after.quoted == before.quoted
    &&& after.escaped == before.escaped
    &&& after.in_value == before.in_value
    &&& after.members == value_grown(before, s)
}

proof fn lemma_grown_twice(scan: ScanView, mid: ScanView, a: Seq<char>, b: Seq<char>)
    requires
        mid.in_value == scan.in_value,
        mid.members == value_grown(scan, a),
    ensures
        value_grown(mid, b) == value_grown(scan, a + b),
{
    if scan.in_value && scan.members.len() > 0 {
        assert(scan.members.last().1 + a + b =~= scan.members.last().1 + (a + b));
        assert(mid.members.drop_last() =~= scan.members.drop_last());
        assert(value_grown(mid, b) =~= value_grown(scan, a + b));
    }
}

proof fn lemma_grown_nothing(scan: ScanView)
    ensures
        value_grown(scan, Seq::empty()) == scan.members,
{
    if scan.in_value && scan.members.len() > 0 {
        assert(scan.members.last().1 + Seq::<char>::empty() =~= scan.members.last().1);
        assert(value_grown(scan, Seq::empty()) =~= scan.members);
    }
}

/// Whether a character means nothing outside of a string.
spec fn is_mere(c: char) -> bool {
    c != '"' && c != '{' && c != '}' && c != '[' && c != ']' && c != ':' && c != ','
}

proof fn lemma_mere_text(scan: ScanView, s: Seq<char>)
    requires
        !scan.quoted,
        forall|i: int| 0 <= i < s.len() ==> is_mere(#[trigger] s[i]),
    ensures
        passed(scan, s, scanned(scan, s)),
    decreases s.len(),
{
    if s.len() == 0 {
        lemma_grown_nothing(scan);
        assert(s =~= Seq::empty());
    } else {
        let rest = s.drop_last();
        assert forall|i: int| 0 <= i < rest.len() implies is_mere(#[trigger] rest[i]) by {
            assert(rest[i] == s[i]);
        }
        lemma_mere_text(scan, rest);
        assert(is_mere(s[s.len() - 1]));
        lemma_grown_twice(scan, scanned(scan, rest), rest, seq![s.last()]);
        assert(rest + seq![s.last()] =~= s);
    }
}

/// What a scan is within a string, after more of it.
spec fn went_on(before: ScanView, s: Seq<char>, after: ScanView) -> bool {
    passed(before, s, after) && after.word == before.word + s
}

proof fn lemma_went_on(scan: ScanView, a: Seq<char>, b: Seq<char>)
    requires
        went_on(scan, a, scanned(scan, a)),
        went_on(scanned(scan, a), b, scanned(scanned(scan, a), b)),
    ensures
        went_on(scan, a + b, scanned(scan, a + b)),
{
    lemma_scanned_add(scan, a, b);
    lemma_grown_twice(scan, scanned(scan, a), a, b);
    assert(scan.word + a + b =~= scan.word + (a + b));
}

proof fn lemma_quoted_char(scan: ScanView, c: char)
    requires
        scan.quoted,
        !scan.escaped,
        c != '"',
        c != '\\',
    ensures
        went_on(scan, seq![c], scanned(scan, seq![c])),
{
    lemma_scanned_one(scan, c);
    assert(scan.word.push(c) =~= scan.word + seq![c]);
}

proof fn lemma_escaped_pair(scan: ScanView, c: char)
    requires
        scan.quoted,
        !scan.escaped,
    ensures
        went_on(scan, seq!['\\', c], scanned(scan, seq!['\\', c])),
{
    let mid = scanned(scan, seq!['\\']);
    lemma_scanned_one(scan, '\\');
    lemma_scanned_one(mid, c);
    lemma_scanned_add(scan, seq!['\\'], seq![c]);
    assert(seq!['\\'] + seq![c] =~= seq!['\\', c]);
    lemma_grown_twice(scan, mid, seq!['\\'], seq![c]);
    assert(scan.word.push('\\').push(c) =~= scan.word + seq!['\\', c]);
}

proof fn lemma_escaped(scan: ScanView, c: char)
    requires
        scan.quoted,
        !scan.escaped,
    ensures
        went_on(scan, json::escaped(c), scanned(scan, json::escaped(c))),
{
    let s = json::escaped(c);
    if s.len() == 1 {
        lemma_quoted_char(scan, c);
    } else if s.len() == 2 {
        lemma_escaped_pair(scan, s[1]);
        assert(s =~= seq!['\\', s[1]]);
    } else {
        let a = seq!['\\', 'u'];
        let b = a + seq!['0'];
        let d = b + seq!['0'];
        let e = d + seq![s[4]];
        lemma_escaped_pair(scan, 'u');
        lemma_quoted_char(scanned(scan, a), '0');
        lemma_went_on(scan, a, seq!['0']);
        lemma_quoted_char(scanned(scan, b), '0');
        lemma_went_on(scan, b, seq!['0']);
        lemma_quoted_char(scanned(scan, d), s[4]);
        lemma_went_on(scan, d, seq![s[4]]);
        lemma_quoted_char(scanned(scan, e), s[5]);
        lemma_went_on(scan, e, seq![s[5]]);
        assert(e + seq![s[5]] =~= s);
    }
}

proof fn lemma_all_escaped(scan: ScanView, s: Seq<char>)
    requires
        scan.quoted,
        !scan.escaped,
    ensures
        went_on(scan, json::all_escaped(s), scanned(scan, json::all_escaped(s))),
    decreases s.len(),
{
    if s.len() == 0 {
        lemma_grown_nothing(scan);
        assert(scan.word + Seq::<char>::empty() =~= scan.word);
    } else {
        let rest = json::all_escaped(s.drop_last());
        lemma_all_escaped(scan, s.drop_last());
        lemma_escaped(scanned(scan, rest), s.last());
        lemma_went_on(scan, rest, json::escaped(s.last()));
    }
}

proof fn lemma_string(scan: ScanView, s: Seq<char>)
    requires
        !scan.quoted,
        !scan.escaped,
    ensures
        passed(scan, json::json_quoted(s), scanned(scan, json::json_quoted(s))),
        scanned(scan, json::json_quoted(s)).word == json::json_quoted(s),
{
    let inner = json::all_escaped(s);
    let open = scanned(scan, seq!['"']);
    let full = scanned(open, inner);
    lemma_scanned_one(scan, '"');
    lemma_all_escaped(open, s);
    lemma_scanned_add(scan, seq!['"'], inner);
    lemma_scanned_one(full, '"');
    lemma_scanned_add(scan, seq!['"'] + inner, seq!['"']);
    lemma_grown_twice(scan, open, seq!['"'], inner);
    lemma_grown_twice(scan, full, seq!['"'] + inner, seq!['"']);
    assert((seq!['"'] + inner).push('"') =~= json::json_quoted(s));
}

proof fn lemma_mark(scan: ScanView, c: char)
    requires
        !scan.quoted,
        scan.depth > 1,
        c == ':' || c == ',',
    ensures
        passed(scan, seq![c], scanned(scan, seq![c])),
{
    lemma_scanned_one(scan, c);
}

proof fn lemma_passed(scan: ScanView, a: Seq<char>, b: Seq<char>)
    requires
        passed(scan, a, scanned(scan, a)),
        passed(scanned(scan, a), b, scanned(scanned(scan, a), b)),
    ensures
        passed(scan, a + b, scanned(scan, a + b)),
{
    lemma_scanned_add(scan, a, b);
    lemma_grown_twice(scan, scanned(scan, a), a, b);
}

proof fn lemma_bracketed(scan: ScanView, open: char, inner: Seq<char>, close: char)
    requires
        !scan.quoted,
        scan.depth >= 1,
        open == '{' || open == '[',
        close == '}' || close == ']',
        passed(
            ScanView { depth: scan.depth + 1, members: value_grown(scan, seq![open]), ..scan },
            inner,
            scanned(
                ScanView { depth: scan.depth + 1, members: value_grown(scan, seq![open]), ..scan },
                inner,
            ),
        ),
    ensures
        passed(
            scan,
            seq![open] + inner + seq![close],
            scanned(scan, seq![open] + inner + seq![close]),
        ),
{
    let begun = scanned(scan, seq![open]);
    lemma_scanned_one(scan, open);
    assert(begun == ScanView {
        depth: scan.depth + 1,
        members: value_grown(scan, seq![open]),
        ..scan
    });
    let full = scanned(begun, inner);
    lemma_scanned_add(scan, seq![open], inner);
    lemma_scanned_one(full, close);
    lemma_scanned_add(scan, seq![open] + inner, seq![close]);
    lemma_grown_twice(scan, begun, seq![open], inner);
    lemma_grown_twice(scan, full, seq![open] + inner, seq![close]);
}

proof fn lemma_integer(scan: ScanView, numeral: Seq<char>)
    requires
        !scan.quoted,
        json::is_integer(numeral),
    ensures
        passed(scan, numeral, scanned(scan, numeral)),
{
    assert forall|i: int| 0 <= i < numeral.len() implies is_mere(#[trigger] numeral[i]) by {
        if exists|n: u64| numeral == #[trigger] text::decimal(n as nat) {
            let n = choose|n: u64| numeral == #[trigger] text::decimal(n as nat);
            json::lemma_decimal_is_read_back(n as nat);
            assert(48 <= numeral[i] as u32 <= 57);
        } else {
            let n = choose|n: i64| n < 0 && numeral == #[trigger] text::decimal_int(n as int);
            json::lemma_decimal_is_read_back((-n) as nat);
            assert(numeral[i] == '-' || 48 <= numeral[i] as u32 <= 57);
        }
    }
    lemma_mere_text(scan, numeral);
}

/// The text of a value that is gone through is part of the value, and nothing else.
proof fn lemma_value(scan: ScanView, value: JsonView, depth: nat)
    requires
        !scan.quoted,
        !scan.escaped,
        scan.depth >= 1,
        json::printable(value, depth),
    ensures
        passed(scan, json::json_text(value), scanned(scan, json::json_text(value))),
    decreases value, 0nat,
{
    match value {
        JsonView::Null => {
            reveal_strlit("null");
            lemma_mere_text(scan, "null"@);
        },
        JsonView::Bool(b) => {
            reveal_strlit("true");
            reveal_strlit("false");
            if b {
                lemma_mere_text(scan, "true"@);
            } else {
                lemma_mere_text(scan, "false"@);
            }
        },
        JsonView::Number(numeral) => lemma_integer(scan, numeral),
        JsonView::Text(s) => lemma_string(scan, s),
        JsonView::Array(items) => {
            let inside = ScanView {
                depth: scan.depth + 1,
                members: value_grown(scan, seq!['[']),
                ..scan
            };
            lemma_items(inside, items, depth);
            lemma_bracketed(scan, '[', json::items_text(items), ']');
            reveal_strlit("[");
            reveal_strlit("]");
            assert("["@ =~= seq!['[']);
            assert("]"@ =~= seq![']']);
        },
        JsonView::Object(members) => {
            let inside = ScanView {
                depth: scan.depth + 1,
                members: value_grown(scan, seq!['{']),
                ..scan
            };
            lemma_inner_members(inside, members, depth);
            lemma_bracketed(scan, '{', json::members_text(members), '}');
            reveal_strlit("{");
            reveal_strlit("}");
            assert("{"@ =~= seq!['{']);
            assert("}"@ =~= seq!['}']);
        },
    }
}

proof fn lemma_items(scan: ScanView, items: Seq<JsonView>, depth: nat)
    requires
        !scan.quoted,
        !scan.escaped,
        scan.depth > 1,
        forall|i: int|
            0 <= i < items.len() ==> json::printable(#[trigger] items[i], (depth - 1) as nat),
    ensures
        passed(scan, json::items_text(items), scanned(scan, json::items_text(items))),
    decreases items, 0nat,
{
    if items.len() == 0 {
        lemma_grown_nothing(scan);
    } else if items.len() == 1 {
        lemma_value(scan, items[0], (depth - 1) as nat);
    } else {
        let rest = items.drop_last();
        let before = json::items_text(rest);
        assert forall|i: int| 0 <= i < rest.len() implies json::printable(
            #[trigger] rest[i],
            (depth - 1) as nat,
        ) by {
            assert(rest[i] == items[i]);
        }
        lemma_items(scan, rest, depth);
        reveal_strlit(",");
        assert(","@ =~= seq![',']);
        lemma_mark(scanned(scan, before), ',');
        lemma_passed(scan, before, ","@);
        assert(items[items.len() - 1] == items.last());
        lemma_value(scanned(scan, before + ","@), items.last(), (depth - 1) as nat);
        lemma_passed(scan, before + ","@, json::json_text(items.last()));
    }
}

proof fn lemma_inner_member(scan: ScanView, member: (Seq<char>, JsonView), depth: nat)
    requires
        !scan.quoted,
        !scan.escaped,
        scan.depth > 1,
        json::printable(member.1, depth),
    ensures
        ({
            let s = json::json_quoted(member.0) + ":"@ + json::json_text(member.1);
            passed(scan, s, scanned(scan, s))
        }),
    decreases member.1, 1nat,
{
    let name = json::json_quoted(member.0);
    reveal_strlit(":");
    assert(":"@ =~= seq![':']);
    lemma_string(scan, member.0);
    lemma_mark(scanned(scan, name), ':');
    lemma_passed(scan, name, ":"@);
    lemma_value(scanned(scan, name + ":"@), member.1, depth);
    lemma_passed(scan, name + ":"@, json::json_text(member.1));
}

proof fn lemma_inner_members(scan: ScanView, members: Seq<(Seq<char>, JsonView)>, depth: nat)
    requires
        !scan.quoted,
        !scan.escaped,
        scan.depth > 1,
        forall|i: int|
            0 <= i < members.len() ==> json::printable(
                (#[trigger] members[i]).1,
                (depth - 1) as nat,
            ),
    ensures
        passed(scan, json::members_text(members), scanned(scan, json::members_text(members))),
    decreases members, 0nat,
{
    if members.len() == 0 {
        lemma_grown_nothing(scan);
    } else if members.len() == 1 {
        lemma_inner_member(scan, members[0], (depth - 1) as nat);
    } else {
        let rest = members.drop_last();
        let before = json::members_text(rest);
        assert forall|i: int| 0 <= i < rest.len() implies json::printable(
            (#[trigger] rest[i]).1,
            (depth - 1) as nat,
        ) by {
            assert(rest[i] == members[i]);
        }
        lemma_inner_members(scan, rest, depth);
        reveal_strlit(",");
        assert(","@ =~= seq![',']);
        lemma_mark(scanned(scan, before), ',');
        lemma_passed(scan, before, ","@);
        let last = members.last();
        assert(members[members.len() - 1] == last);
        lemma_inner_member(scanned(scan, before + ","@), last, (depth - 1) as nat);
        lemma_passed(
            scan,
            before + ","@,
            json::json_quoted(last.0) + ":"@ + json::json_text(last.1),
        );
    }
}

/// The members of an object as they are written.
pub open spec fn member_texts(members: Seq<(Seq<char>, JsonView)>) -> Seq<(Seq<char>, Seq<char>)> {
    Seq::new(
        members.len(),
        |i: int| (json::json_quoted(members[i].0), json::json_text(members[i].1)),
    )
}

proof fn lemma_outer_member(scan: ScanView, member: (Seq<char>, JsonView), depth: nat)
    requires
        !scan.quoted,
        !scan.escaped,
        !scan.in_value,
        scan.depth == 1,
        json::printable(member.1, depth),
    ensures
        ({
            let s = json::json_quoted(member.0) + ":"@ + json::json_text(member.1);
            let after = scanned(scan, s);
            &&& after.depth == 1 && !after.quoted && !after.escaped && after.in_value
            &&& after.members == scan.members.push(
                (json::json_quoted(member.0), json::json_text(member.1)),
            )
        }),
{
    let name = json::json_quoted(member.0);
    let value = json::json_text(member.1);
    reveal_strlit(":");
    assert(":"@ =~= seq![':']);
    lemma_string(scan, member.0);
    let named = scanned(scan, name);
    lemma_scanned_one(named, ':');
    lemma_scanned_add(scan, name, ":"@);
    let begun = scanned(scan, name + ":"@);
    lemma_value(begun, member.1, depth);
    lemma_scanned_add(scan, name + ":"@, value);
    assert(begun.members == scan.members.push((name, Seq::empty())));
    assert(begun.members.drop_last() =~= scan.members);
    assert(Seq::<char>::empty() + value =~= value);
}

proof fn lemma_outer_members(scan: ScanView, members: Seq<(Seq<char>, JsonView)>, depth: nat)
    requires
        !scan.quoted,
        !scan.escaped,
        !scan.in_value,
        scan.depth == 1,
        scan.members.len() == 0,
        forall|i: int| 0 <= i < members.len() ==> json::printable((#[trigger] members[i]).1, depth),
    ensures
        ({
            let after = scanned(scan, json::members_text(members));
            &&& after.depth == 1 && !after.quoted && !after.escaped
            &&& after.in_value == (members.len() > 0)
            &&& after.members == member_texts(members)
        }),
    decreases members.len(),
{
    if members.len() == 0 {
        assert(member_texts(members) =~= scan.members);
    } else if members.len() == 1 {
        lemma_outer_member(scan, members[0], depth);
        assert(member_texts(members) =~= scan.members.push(member_texts(members)[0]));
    } else {
        let rest = members.drop_last();
        let last = members.last();
        let before = json::members_text(rest);
        assert forall|i: int| 0 <= i < rest.len() implies json::printable(
            (#[trigger] rest[i]).1,
            depth,
        ) by {
            assert(rest[i] == members[i]);
        }
        lemma_outer_members(scan, rest, depth);
        reveal_strlit(",");
        assert(","@ =~= seq![',']);
        lemma_scanned_one(scanned(scan, before), ',');
        lemma_scanned_add(scan, before, ","@);
        assert(members[members.len() - 1] == last);
        lemma_outer_member(scanned(scan, before + ","@), last, depth);
        lemma_scanned_add(
            scan,
            before + ","@,
            json::json_quoted(last.0) + ":"@ + json::json_text(last.1),
        );
        assert(member_texts(members) =~= member_texts(rest).push(
            (json::json_quoted(last.0), json::json_text(last.1)),
        ));
    }
}

/// The members that stand in the text of an object are its members, in their order.
pub proof fn law_members_are_told(members: Seq<(Seq<char>, JsonView)>, depth: nat)
    requires
        json::printable(JsonView::Object(members), depth),
    ensures
        written_members(json::json_text(JsonView::Object(members))) == member_texts(members),
{
    let value = JsonView::Object(members);
    assert forall|i: int| 0 <= i < members.len() implies json::printable(
        (#[trigger] members[i]).1,
        (depth - 1) as nat,
    ) by {
        assert(value->Object_0[i] == members[i]);
    }
    reveal_strlit("{");
    reveal_strlit("}");
    assert("{"@ =~= seq!['{']);
    assert("}"@ =~= seq!['}']);
    let inner = json::members_text(members);
    lemma_scanned_one(scan_start(), '{');
    let begun = scanned(scan_start(), "{"@);
    lemma_outer_members(begun, members, (depth - 1) as nat);
    lemma_scanned_add(scan_start(), "{"@, inner);
    lemma_scanned_one(scanned(begun, inner), '}');
    lemma_scanned_add(scan_start(), "{"@ + inner, "}"@);
}

/// A member as it is written.
pub struct WrittenMember {
    pub name: String,
    pub value: String,
}

/// What members as they are written stand for.
pub open spec fn written_views(members: Seq<WrittenMember>) -> Seq<(Seq<char>, Seq<char>)> {
    Seq::new(members.len(), |i: int| (members[i].name@, members[i].value@))
}

struct Scan {
    depth: usize,
    quoted: bool,
    escaped: bool,
    word: String,
    in_value: bool,
    members: Vec<WrittenMember>,
}

impl Scan {
    spec fn view(&self) -> ScanView {
        ScanView {
            depth: self.depth as nat,
            quoted: self.quoted,
            escaped: self.escaped,
            word: self.word@,
            in_value: self.in_value,
            members: written_views(self.members@),
        }
    }

    fn grow(&mut self, c: char)
        ensures
            final(self)@ == (ScanView { members: value_grown(old(self)@, seq![c]), ..old(self)@ }),
            final(self).depth == old(self).depth,
    {
        let ghost before = written_views(self.members@);
        assert(before.len() == self.members@.len());
        if self.in_value {
            if let Some(member) = self.members.pop() {
                let mut value = member.value;
                value.push(c);
                self.members.push(WrittenMember { name: member.name, value });
                assert(member.value@.push(c) =~= member.value@ + seq![c]);
                assert(written_views(self.members@) =~= value_grown(old(self)@, seq![c]));
            }
        }
        assert(written_views(self.members@) =~= value_grown(old(self)@, seq![c]));
    }

    fn step(&mut self, c: char)
        requires
            old(self).depth < usize::MAX,
        ensures
            final(self)@ == scan_step(old(self)@, c),
            final(self).depth <= old(self).depth + 1,
    {
        if self.quoted {
            self.grow(c);
            self.word.push(c);
            if self.escaped {
                self.escaped = false;
            } else if c == '\\' {
                self.escaped = true;
            } else if c == '"' {
                self.quoted = false;
            }
        } else if c == '"' {
            self.grow(c);
            self.quoted = true;
            self.escaped = false;
            let mut word = String::new();
            word.push(c);
            assert(word@ =~= seq![c]);
            self.word = word;
        } else if c == '{' || c == '[' {
            self.grow(c);
            self.depth = self.depth + 1;
        } else if c == '}' || c == ']' {
            if self.depth <= 1 {
                self.depth = 0;
                self.in_value = false;
            } else {
                self.grow(c);
                self.depth = self.depth - 1;
            }
        } else if c == ':' && self.depth == 1 && !self.in_value {
            self.in_value = true;
            let ghost before = written_views(self.members@);
            self.members.push(WrittenMember { name: self.word.clone(), value: String::new() });
            assert(written_views(self.members@) =~= before.push((self.word@, Seq::empty())));
        } else if c == ',' && self.depth == 1 {
            self.in_value = false;
        } else {
            self.grow(c);
        }
    }
}

/// The members of the object in a text.
pub(crate) fn members_in(s: &str) -> (r: Vec<WrittenMember>)
    ensures
        written_views(r@) == written_members(s@),
{
    let chars = text::chars_of(s);
    let mut scan = Scan {
        depth: 0,
        quoted: false,
        escaped: false,
        word: String::new(),
        in_value: false,
        members: Vec::new(),
    };
    assert(scan.word@ =~= Seq::empty());
    assert(written_views(scan.members@) =~= Seq::empty());
    assert(scan@ == scanned(scan_start(), chars@.take(0)));
    for i in 0..chars.len()
        invariant
            chars@ == s@,
            scan.depth <= i,
            scan@ == scanned(scan_start(), chars@.take(i as int)),
    {
        assert(chars@.take(i + 1).drop_last() =~= chars@.take(i as int));
        scan.step(chars[i]);
    }
    assert(chars@.take(chars@.len() as int) =~= chars@);
    scan.members
}

/// What optional names stand for.
pub open spec fn name_views(names: Seq<Option<String>>) -> Seq<Option<Seq<char>>> {
    Seq::new(names.len(), |i: int| text::opt_view(names[i]))
}

/// The names of members.
pub(crate) fn member_names(members: &Vec<WrittenMember>) -> (r: Vec<Option<String>>)
    ensures
        name_views(r@) == names_of(written_views(members@)),
        forall|i: int|
            0 <= i < members@.len() ==> json::reads_back(
                (#[trigger] written_views(members@)[i]).0,
                json::json_parsed(written_views(members@)[i].0),
            ),
{
    let ghost all = written_views(members@);
    let mut r: Vec<Option<String>> = Vec::new();
    for k in 0..members.len()
        invariant
            all == written_views(members@),
            r@.len() == k,
            forall|i: int| 0 <= i < k ==> text::opt_view(#[trigger] r@[i]) == name_of(all[i].0),
            forall|i: int|
                0 <= i < k ==> json::reads_back(
                    (#[trigger] all[i]).0,
                    json::json_parsed(all[i].0),
                ),
    {
        assert(all[k as int].0 == members@[k as int].name@);
        let name = match Json::parse(members[k].name.as_str()) {
            Ok(Json::Text(name)) => Some(name),
            _ => None,
        };
        r.push(name);
    }
    assert(name_views(r@) =~= names_of(all));
    r
}

proof fn lemma_told_names(members: Seq<(Seq<char>, JsonView)>)
    requires
        forall|i: int|
            0 <= i < members.len() ==> json::reads_back(
                (#[trigger] member_texts(members)[i]).0,
                json::json_parsed(member_texts(members)[i].0),
            ),
    ensures
        names_of(member_texts(members)) == Seq::new(
            members.len(),
            |i: int| Some(members[i].0),
        ),
{
    assert forall|i: int| 0 <= i < members.len() implies name_of(
        (#[trigger] member_texts(members)[i]).0,
    ) == Some(members[i].0) by {
        let value = JsonView::Text(members[i].0);
        assert(json::json_text(value) == member_texts(members)[i].0);
        assert(json::printable(value, json::depth_limit()));
    }
    assert(names_of(member_texts(members)) =~= Seq::new(
        members.len(),
        |i: int| Some(members[i].0),
    ));
}

proof fn lemma_none_repeated(names: Seq<Option<Seq<char>>>, known: Seq<Seq<char>>)
    requires
        forall|i: int, j: int| 0 <= i < j < names.len() ==> names[i] != names[j],
    ensures
        first_repeated(names, known) is None,
    decreases names.len(),
{
    if names.len() > 0 {
        let rest = names.drop_last();
        assert forall|i: int, j: int| 0 <= i < j < rest.len() implies rest[i] != rest[j] by {
            assert(names[i] != names[j]);
        }
        lemma_none_repeated(rest, known);
        if rest.contains(names.last()) {
            let i = choose|i: int| 0 <= i < rest.len() && rest[i] == names.last();
            assert(names[i] != names[names.len() - 1]);
        }
    }
}

fn is_known(name: &str, known: &Vec<&'static str>) -> (r: bool)
    ensures
        r == text::str_views(known@).contains(name@),
{
    for i in 0..known.len()
        invariant
            forall|k: int| 0 <= k < i ==> (#[trigger] known@[k])@ != name@,
    {
        if text::same_text(known[i], name) {
            assert(text::str_views(known@)[i as int] == name@);
            return true;
        }
    }
    proof {
        if text::str_views(known@).contains(name@) {
            let k = choose|k: int|
                0 <= k < text::str_views(known@).len() && text::str_views(known@)[k] == name@;
            assert(known@[k]@ == name@);
        }
    }
    false
}

/// The first of the `known` names that stands in a list for the second time.
pub(crate) fn find_repeated(names: &Vec<Option<String>>, known: &Vec<&'static str>) -> (r: Option<String>)
    ensures
        text::opt_view(r) == first_repeated(name_views(names@), text::str_views(known@)),
{
    let ghost all = name_views(names@);
    assert(all.take(0) =~= Seq::empty());
    for j in 0..names.len()
        invariant
            all == name_views(names@),
            first_repeated(all.take(j as int), text::str_views(known@)) is None,
    {
        let ghost before = all.take(j as int);
        assert(all.take(j + 1).drop_last() =~= before);
        assert(all.take(j + 1).last() == all[j as int]);
        if let Some(name) = &names[j] {
            let mut there = false;
            for i in 0..j
                invariant
                    all == name_views(names@),
                    before == all.take(j as int),
                    j < names@.len(),
                    there ==> before.contains(Some(name@)),
                    !there ==> forall|k: int|
                        0 <= k < i ==> (#[trigger] before[k]) != Some(name@),
            {
                assert(before[i as int] == text::opt_view(names@[i as int]));
                if text::is_text(&names[i], name.as_str()) {
                    there = true;
                }
            }
            assert(there == before.contains(Some(name@)));
            if there && is_known(name.as_str(), known) {
                proof {
                    lemma_first_is_first(all, j + 1, text::str_views(known@));
                }
                return Some(name.clone());
            }
        }
    }
    assert(all.take(all.len() as int) =~= all);
    None
}

proof fn lemma_first_is_first(names: Seq<Option<Seq<char>>>, n: int, known: Seq<Seq<char>>)
    requires
        0 <= n <= names.len(),
        first_repeated(names.take(n), known) is Some,
    ensures
        first_repeated(names, known) == first_repeated(names.take(n), known),
    decreases names.len(),
{
    if n == names.len() {
        assert(names.take(n) =~= names);
    } else {
        assert(names.drop_last().take(n) =~= names.take(n));
        lemma_first_is_first(names.drop_last(), n, known);
    }
}

/// The first of the `known` names that the object in a text has for the second time. What was written
/// for a value has none.
pub fn repeated_member(s: &str, known: &Vec<&'static str>) -> (r: Option<String>)
    ensures
        text::opt_view(r) == repeated_in(s@, text::str_views(known@)),
        forall|value: JsonView|
            value is Object && json::printable(value, json::depth_limit()) && #[trigger]
            json::json_text(value) == s@ ==> r is None,
{
    let members = members_in(s);
    let names = member_names(&members);
    let r = find_repeated(&names, known);
    proof {
        let all = written_views(members@);
        assert forall|value: JsonView|
            value is Object && json::printable(value, json::depth_limit()) && #[trigger]
            json::json_text(value) == s@ implies r is None by {
            let own = value->Object_0;
            law_members_are_told(own, json::depth_limit());
            assert(all == member_texts(own));
            lemma_told_names(own);
            let told = names_of(all);
            assert forall|i: int, j: int| 0 <= i < j < told.len() implies told[i] != told[j] by {
                assert(own[i].0 != own[j].0);
            }
            lemma_none_repeated(told, text::str_views(known@));
        }
    }
    r
}

/// The value of the first member that goes by `name`, as it is written.
pub(crate) fn find_value(members: &Vec<WrittenMember>, names: &Vec<Option<String>>, name: &str) -> (r: Option<
    String,
>)
    requires
        name_views(names@) == names_of(written_views(members@)),
    ensures
        text::opt_view(r) == value_written(written_views(members@), name@),
{
    let ghost all = written_views(members@);
    assert(name_views(names@).len() == names@.len());
    assert(all.skip(0) =~= all);
    for i in 0..members.len()
        invariant
            all == written_views(members@),
            names@.len() == members@.len(),
            name_views(names@) == names_of(all),
            value_written(all, name@) == value_written(all.skip(i as int), name@),
    {
        assert(all.skip(i as int)[0] == all[i as int]);
        assert(name_views(names@)[i as int] == text::opt_view(names@[i as int]));
        assert(all.skip(i as int).drop_first() =~= all.skip(i + 1));
        if text::is_text(&names[i], name) {
            return Some(members[i].value.clone());
        }
    }
    assert(all.skip(all.len() as int).len() == 0);
    None
}

proof fn lemma_told_value(members: Seq<(Seq<char>, JsonView)>, name: Seq<char>)
    requires
        names_of(member_texts(members)) == Seq::new(members.len(), |i: int| Some(members[i].0)),
    ensures
        value_written(member_texts(members), name) == match json::first_member(members, name) {
            Some(value) => Some(json::json_text(value)),
            None => None,
        },
    decreases members.len(),
{
    let texts = member_texts(members);
    if members.len() > 0 {
        let rest = members.drop_first();
        assert(names_of(texts)[0] == Some(members[0].0));
        assert(name_of(texts[0].0) == Some(members[0].0));
        assert(texts.drop_first() =~= member_texts(rest));
        assert(names_of(member_texts(rest)) =~= Seq::new(rest.len(), |i: int| Some(rest[i].0))) by {
            assert forall|i: int| 0 <= i < rest.len() implies names_of(member_texts(rest))[i]
                == Some(rest[i].0) by {
                assert(names_of(texts)[i + 1] == Some(members[i + 1].0));
                assert(member_texts(rest)[i] == texts[i + 1]);
            }
        }
        lemma_told_value(rest, name);
    }
}

/// The value of the first member named `name` of the object in a text, as it is written. In what was
/// written for a value it is the text of the member.
pub fn member_text(s: &str, name: &str) -> (r: Option<String>)
    ensures
        text::opt_view(r) == value_written(written_members(s@), name@),
        forall|value: JsonView|
            value is Object && json::printable(value, json::depth_limit()) && #[trigger]
            json::json_text(value) == s@ ==> text::opt_view(r) == match json::member_of(
                value,
                name@,
            ) {
                Some(part) => Some(json::json_text(part)),
                None => None,
            },
{
    let members = members_in(s);
    let names = member_names(&members);
    let r = find_value(&members, &names, name);
    proof {
        let all = written_views(members@);
        assert forall|value: JsonView|
            value is Object && json::printable(value, json::depth_limit()) && #[trigger]
            json::json_text(value) == s@ implies text::opt_view(r) == (match json::member_of(
            value,
            name@,
        ) {
            Some(part) => Some(json::json_text(part)),
            None => None,
        }) by {
            let own = value->Object_0;
            law_members_are_told(own, json::depth_limit());
            assert(all == member_texts(own));
            lemma_told_names(own);
            lemma_told_value(own, name@);
        }
    }
    r
}

/// The first of the names that the object in a text has for the second time: one of `outer`, or one of
/// `inner` in the object that is its member `name`. What was written for a value has none, where that
/// member is an object or is not there.
pub fn repeated_members(
    s: &str,
    outer: &Vec<&'static str>,
    name: &str,
    inner: &Vec<&'static str>,
) -> (r: Option<String>)
    ensures
        text::opt_view(r) == repeated_within(
            s@,
            text::str_views(outer@),
            name@,
            text::str_views(inner@),
        ),
        forall|value: JsonView|
            value is Object && json::printable(value, json::depth_limit()) && (json::member_of(
                value,
                name@,
            ) matches Some(part) ==> part is Object) && #[trigger] json::json_text(value) == s@
                ==> r is None,
{
    let members = members_in(s);
    let names = member_names(&members);
    let value = find_value(&members, &names, name);
    let r = match repeated_member(s, outer) {
        Some(repeated) => Some(repeated),
        None => match &value {
            Some(value) => repeated_member(value.as_str(), inner),
            None => None,
        },
    };
    proof {
        let all = written_views(members@);
        assert forall|given: JsonView|
            given is Object && json::printable(given, json::depth_limit()) && (json::member_of(
                given,
                name@,
            ) matches Some(part) ==> part is Object) && #[trigger] json::json_text(given)
                == s@ implies r is None by {
            let own = given->Object_0;
            law_members_are_told(own, json::depth_limit());
            assert(all == member_texts(own));
            lemma_told_names(own);
            lemma_told_value(own, name@);
            if let Some(part) = json::member_of(given, name@) {
                json::lemma_printable_member(given, name@, json::depth_limit());
                assert(json::json_text(part) == value->Some_0@);
            }
        }
    }
    r
}

/// A name is told as repeated exactly where it is one of the known ones and occurs twice.
pub proof fn law_repeated_names_are_told(names: Seq<Option<Seq<char>>>, known: Seq<Seq<char>>)
    ensures
        first_repeated(names, known) matches Some(name) ==> known.contains(name) && exists|
            i: int,
            j: int,
        |
            0 <= i < j < names.len() && #[trigger] names[i] == Some(name) && #[trigger] names[j]
                == Some(name),
        first_repeated(names, known) is None <==> forall|i: int, j: int|
            0 <= i < j < names.len() && #[trigger] names[i] == #[trigger] names[j] && names[j] is Some
                ==> !known.contains(names[j]->Some_0),
    decreases names.len(),
{
    if names.len() > 0 {
        let rest = names.drop_last();
        law_repeated_names_are_told(rest, known);
        assert(names[names.len() - 1] == names.last());
        if let Some(name) = first_repeated(rest, known) {
            let (i, j) = choose|i: int, j: int|
                0 <= i < j < rest.len() && #[trigger] rest[i] == Some(name) && #[trigger] rest[j]
                    == Some(name);
            assert(names[i] == Some(name) && names[j] == Some(name));
        } else {
            assert forall|i: int, j: int|
                0 <= i < j < rest.len() && #[trigger] names[i] == #[trigger] names[j] && names[j]
                    is Some implies !known.contains(names[j]->Some_0) by {
                assert(rest[i] == names[i] && rest[j] == names[j]);
            }
            if let Some(name) = names.last() {
                if known.contains(name) && rest.contains(Some(name)) {
                    let i = choose|i: int| 0 <= i < rest.len() && rest[i] == Some(name);
                    assert(names[i] == Some(name));
                } else if known.contains(name) {
                    assert forall|i: int| 0 <= i < rest.len() implies names[i] != Some(name) by {
                        assert(rest[i] == names[i]);
                    }
                }
            }
        }
    }
}

} // verus!
