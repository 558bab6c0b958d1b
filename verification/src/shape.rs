//! What a reader takes of a JSON text: the members that it knows, each once. What it does not know it
//! only passes over.
use crate::json;
use crate::json::{Json, JsonView};
use crate::members;
use crate::table;
use crate::text;
use vstd::prelude::*;

verus! {

/// Why `serde_json::from_str` into a `serde::de::IgnoredAny` refuses a text; nothing where it takes it.
pub uninterp spec fn json_skipped(text: Seq<char>) -> Option<Seq<char>>;

/// `serde_json::from_str` into a `serde::de::IgnoredAny`, which goes through a JSON value and keeps
/// nothing of it: whether a text holds one, and if not, what the parser says. It depends on the text
/// alone.
#[verifier::external_body]
fn skip_text(text: &str) -> (r: Option<String>)
    ensures
        text::opt_view(r) == json_skipped(text@),
{
    serde_json::from_str::<serde::de::IgnoredAny>(text).err().map(|error| error.to_string())
}

/// What a reader takes of a value.
pub enum Shape {
    /// All of it.
    Any,
    /// Of each item what the shape says.
    List(Box<Shape>),
    /// The members that have the names of fields, and of each what its shape says.
    Record(Vec<FieldShape>),
    /// All of it; but neither the tag nor a member that belongs to the kind that the tag names may
    /// stand there twice.
    Tagged { tag: &'static str, kinds: Vec<Kind> },
}

/// A field, and what is taken of it.
pub struct FieldShape {
    pub name: &'static str,
    pub shape: Shape,
}

/// A kind of value, and the names of its fields.
pub struct Kind {
    pub name: &'static str,
    pub fields: Vec<&'static str>,
}

/// What a shape stands for.
pub enum ShapeView {
    Any,
    List(Box<ShapeView>),
    Record(Seq<(Seq<char>, ShapeView)>),
    Tagged { tag: Seq<char>, kinds: Seq<(Seq<char>, Seq<Seq<char>>)> },
}

/// What kinds stand for.
pub open spec fn kind_views(kinds: Seq<Kind>) -> Seq<(Seq<char>, Seq<Seq<char>>)> {
    Seq::new(kinds.len(), |i: int| (kinds[i].name@, text::str_views(kinds[i].fields@)))
}

/// What fields stand for.
pub open spec fn field_views(fields: Seq<FieldShape>) -> Seq<(Seq<char>, ShapeView)> {
    Seq::new(fields.len(), |i: int| (fields[i].name@, fields[i].shape@))
}

impl Shape {
    /// The shape that `self` stands for.
    pub open spec fn view(&self) -> ShapeView
        decreases self,
    {
        match self {
            Shape::Any => ShapeView::Any,
            Shape::List(inner) => ShapeView::List(Box::new(inner.view())),
            Shape::Record(fields) => ShapeView::Record(
                Seq::new(
                    fields@.len(),
                    |i: int|
                        if 0 <= i < fields@.len() {
                            (fields@[i].name@, fields@[i].shape.view())
                        } else {
                            (Seq::empty(), ShapeView::Any)
                        },
                ),
            ),
            Shape::Tagged { tag, kinds } => ShapeView::Tagged {
                tag: tag@,
                kinds: kind_views(kinds@),
            },
        }
    }
}

proof fn lemma_record_view(fields: Vec<FieldShape>)
    ensures
        Shape::Record(fields)@ == ShapeView::Record(field_views(fields@)),
{
    assert(Shape::Record(fields)@->Record_0 =~= field_views(fields@));
}

/// The names of fields.
pub open spec fn field_names(fields: Seq<(Seq<char>, ShapeView)>) -> Seq<Seq<char>> {
    Seq::new(fields.len(), |i: int| fields[i].0)
}

/// The character that a text begins with, white space aside.
pub open spec fn opening(s: Seq<char>) -> Option<char> {
    if text::trim(s).len() > 0 {
        Some(text::trim(s)[0])
    } else {
        None
    }
}

/// How far the text of a list was gone through.
pub struct ItemScanView {
    /// How many brackets are open.
    pub depth: nat,
    /// Whether a string is open.
    pub quoted: bool,
    /// Whether the next character of the string is escaped.
    pub escaped: bool,
    /// The items so far, as they are written.
    pub items: Seq<Seq<char>>,
}

/// Where the text of a list starts.
pub open spec fn items_start() -> ItemScanView {
    ItemScanView { depth: 0, quoted: false, escaped: false, items: Seq::empty() }
}

/// The items with one character behind the last.
pub open spec fn item_grown(items: Seq<Seq<char>>, c: char) -> Seq<Seq<char>> {
    if items.len() == 0 {
        seq![seq![c]]
    } else {
        items.drop_last().push(items.last().push(c))
    }
}

/// One character more of the text. A comma between the items begins the next.
pub open spec fn item_step(scan: ItemScanView, c: char) -> ItemScanView {
    let grown = ItemScanView { items: item_grown(scan.items, c), ..scan };
    if scan.quoted {
        ItemScanView {
            escaped: !scan.escaped && c == '\\',
            quoted: scan.escaped || c != '"',
            ..grown
        }
    } else if c == '"' {
        ItemScanView { quoted: true, escaped: false, ..grown }
    } else if c == '{' || c == '[' {
        if scan.depth == 0 {
            ItemScanView { depth: 1, ..scan }
        } else {
            ItemScanView { depth: scan.depth + 1, ..grown }
        }
    } else if c == '}' || c == ']' {
        if scan.depth <= 1 {
            ItemScanView { depth: 0, ..scan }
        } else {
            ItemScanView { depth: (scan.depth - 1) as nat, ..grown }
        }
    } else if scan.depth == 0 {
        scan
    } else if c == ',' && scan.depth == 1 {
        ItemScanView { items: scan.items.push(Seq::empty()), ..scan }
    } else {
        grown
    }
}

/// All the characters of a text, one after the other.
pub open spec fn items_scanned(s: Seq<char>) -> ItemScanView
    decreases s.len(),
{
    if s.len() == 0 {
        items_start()
    } else {
        item_step(items_scanned(s.drop_last()), s.last())
    }
}

/// The items of the list that a text stands for, as they are written.
pub open spec fn written_items(s: Seq<char>) -> Seq<Seq<char>> {
    items_scanned(s).items
}

/// Parts in brackets, with commas between them.
pub open spec fn in_brackets(
    open: Seq<char>,
    parts: Result<Seq<Seq<char>>, Seq<char>>,
    close: Seq<char>,
) -> Result<Seq<char>, Seq<char>> {
    match parts {
        Ok(parts) => Ok(open + text::joined(parts, ","@) + close),
        Err(name) => Err(name),
    }
}

/// The name that the object in a text has for the second time: that of the tag, or that of a field of
/// the kind that the tag names.
pub open spec fn tagged_twice(
    tag: Seq<char>,
    kinds: Seq<(Seq<char>, Seq<Seq<char>>)>,
    s: Seq<char>,
) -> Option<Seq<char>> {
    let written = members::written_members(s);
    let names = members::names_of(written);
    match members::first_repeated(names, seq![tag]) {
        Some(name) => Some(name),
        None => match members::value_written(written, tag) {
            Some(word) => match members::name_of(word) {
                Some(kind) => match table::lookup(kinds, kind) {
                    Some(fields) => members::first_repeated(names, fields),
                    None => None,
                },
                None => None,
            },
            None => None,
        },
    }
}

/// The text of a value without the members that a reader does not know; or the name of a member that
/// it knows and that stands there twice. A list may tell the fields of a record in their order.
pub open spec fn pruned(shape: ShapeView, s: Seq<char>) -> Result<Seq<char>, Seq<char>>
    decreases shape, 0nat,
{
    match shape {
        ShapeView::Any => Ok(s),
        ShapeView::List(inner) => if opening(s) == Some('[') {
            in_brackets("["@, pruned_items(*inner, written_items(s)), "]"@)
        } else {
            Ok(s)
        },
        ShapeView::Record(fields) => if opening(s) == Some('{') {
            match members::repeated_in(s, field_names(fields)) {
                Some(name) => Err(name),
                None => in_brackets(
                    "{"@,
                    pruned_members(fields, members::written_members(s)),
                    "}"@,
                ),
            }
        } else if opening(s) == Some('[') {
            in_brackets("["@, pruned_fields(fields, written_items(s)), "]"@)
        } else {
            Ok(s)
        },
        ShapeView::Tagged { tag, kinds } => if opening(s) == Some('{') {
            match tagged_twice(tag, kinds, s) {
                Some(name) => Err(name),
                None => Ok(s),
            }
        } else {
            Ok(s)
        },
    }
}

/// The texts of items, each pruned.
pub open spec fn pruned_items(shape: ShapeView, items: Seq<Seq<char>>) -> Result<
    Seq<Seq<char>>,
    Seq<char>,
>
    decreases shape, items.len(),
{
    if items.len() == 0 {
        Ok(Seq::empty())
    } else {
        match (pruned_items(shape, items.drop_last()), pruned(shape, items.last())) {
            (Err(name), _) => Err(name),
            (Ok(_), Err(name)) => Err(name),
            (Ok(before), Ok(item)) => Ok(before.push(item)),
        }
    }
}

/// The texts of items that tell the fields of a record in their order, each pruned.
pub open spec fn pruned_fields(fields: Seq<(Seq<char>, ShapeView)>, items: Seq<Seq<char>>) -> Result<
    Seq<Seq<char>>,
    Seq<char>,
>
    decreases fields, items.len(),
{
    if items.len() == 0 {
        Ok(Seq::empty())
    } else {
        let at = items.len() - 1;
        let last = if at < fields.len() {
            pruned(fields[at].1, items[at])
        } else {
            Ok(items[at])
        };
        match (pruned_fields(fields, items.drop_last()), last) {
            (Err(name), _) => Err(name),
            (Ok(_), Err(name)) => Err(name),
            (Ok(before), Ok(item)) => Ok(before.push(item)),
        }
    }
}

/// The texts of the members that are fields, each pruned; a member whose name cannot be read stays as
/// it is.
pub open spec fn pruned_members(
    fields: Seq<(Seq<char>, ShapeView)>,
    written: Seq<(Seq<char>, Seq<char>)>,
) -> Result<Seq<Seq<char>>, Seq<char>>
    decreases fields, written.len(),
{
    if written.len() == 0 {
        Ok(Seq::empty())
    } else {
        let member = written.last();
        match (pruned_members(fields, written.drop_last()), members::name_of(member.0)) {
            (Err(name), _) => Err(name),
            (Ok(before), None) => Ok(before.push(member.0 + ":"@ + member.1)),
            (Ok(before), Some(name)) => {
                let at = table::position(fields, name);
                if 0 <= at < fields.len() {
                    match pruned(fields[at].1, member.1) {
                        Err(name) => Err(name),
                        Ok(value) => Ok(before.push(member.0 + ":"@ + value)),
                    }
                } else {
                    Ok(before)
                }
            },
        }
    }
}

/// What a reader takes of a text; or why it takes nothing: the text is not JSON, what the reader knows
/// of it cannot be read, or a member that it knows stands there twice.
pub open spec fn shaped(shape: ShapeView, s: Seq<char>) -> Result<JsonView, Seq<char>> {
    match json_skipped(s) {
        Some(message) => Err(message),
        None => match pruned(shape, s) {
            Err(name) => Err(members::repeated_words(name)),
            Ok(known) => json::json_parsed(known),
        },
    }
}

fn opens(s: &str) -> (r: Option<char>)
    ensures
        r == opening(s@),
{
    let chars = text::chars_of(text::trimmed(s).as_str());
    if chars.len() > 0 {
        Some(chars[0])
    } else {
        None
    }
}

/// A field as it is written: the member `name` of an object, or the item at `at` of a list.
pub open spec fn field_text(s: Seq<char>, name: Seq<char>, at: nat) -> Option<Seq<char>> {
    if opening(s) == Some('{') {
        members::value_written(members::written_members(s), name)
    } else if opening(s) == Some('[') && at < written_items(s).len() {
        Some(written_items(s)[at as int])
    } else {
        None
    }
}

/// A field as it is written. In what was written for an object it is the text of the member.
pub fn read_field_text(s: &str, name: &str, at: usize) -> (r: Option<String>)
    ensures
        text::opt_view(r) == field_text(s@, name@, at as nat),
        forall|value: JsonView|
            value is Object && json::printable(value, json::depth_limit()) && #[trigger]
            json::json_text(value) == s@ ==> text::opt_view(r) == match json::member_of(
                value,
                name@,
            ) {
                Some(part) => Some(json::json_text(part)),
                None => None,
            },
{
    let opened = opens(s);
    proof {
        assert forall|value: JsonView|
            value is Object && #[trigger] json::json_text(value) == s@ implies opened == Some(
            '{',
        ) by {
            json::law_object_lines_are_trimmed(value);
            reveal_strlit("{");
            assert(json::json_text(value)[0] == '{');
        }
    }
    if opened == Some('{') {
        return members::member_text(s, name);
    }
    if opened == Some('[') {
        let items = items_in(s);
        assert(text::views(items@).len() == items@.len());
        if at < items.len() {
            assert(text::views(items@)[at as int] == items@[at as int]@);
            return Some(items[at].clone());
        }
    }
    None
}

struct ItemScan {
    depth: usize,
    quoted: bool,
    escaped: bool,
    items: Vec<String>,
}

impl ItemScan {
    spec fn view(&self) -> ItemScanView {
        ItemScanView {
            depth: self.depth as nat,
            quoted: self.quoted,
            escaped: self.escaped,
            items: text::views(self.items@),
        }
    }

    fn grow(&mut self, c: char)
        ensures
            final(self)@ == (ItemScanView { items: item_grown(old(self)@.items, c), ..old(self)@ }),
            final(self).depth == old(self).depth,
    {
        let ghost before = text::views(self.items@);
        assert(before.len() == self.items@.len());
        let mut item = match self.items.pop() {
            Some(item) => item,
            None => String::new(),
        };
        proof {
            if before.len() == 0 {
                assert(item@.push(c) =~= seq![c]);
            }
        }
        item.push(c);
        self.items.push(item);
        assert(text::views(self.items@) =~= item_grown(before, c));
    }

    fn step(&mut self, c: char)
        requires
            old(self).depth < usize::MAX,
        ensures
            final(self)@ == item_step(old(self)@, c),
            final(self).depth <= old(self).depth + 1,
    {
        if self.quoted {
            self.grow(c);
            if self.escaped {
                self.escaped = false;
            } else if c == '\\' {
                self.escaped = true;
            } else if c == '"' {
                self.quoted = false;
            }
        } else if c == '"' {
            self.grow(c);
            self.quoted = true;
            self.escaped = false;
        } else if c == '{' || c == '[' {
            if self.depth > 0 {
                self.grow(c);
            }
            self.depth = self.depth + 1;
        } else if c == '}' || c == ']' {
            if self.depth <= 1 {
                self.depth = 0;
            } else {
                self.grow(c);
                self.depth = self.depth - 1;
            }
        } else if self.depth == 0 {
        } else if c == ',' && self.depth == 1 {
            let ghost before = text::views(self.items@);
            let item = String::new();
            assert(item@ =~= Seq::empty());
            self.items.push(item);
            assert(text::views(self.items@) =~= before.push(Seq::empty()));
        } else {
            self.grow(c);
        }
    }
}

fn items_in(s: &str) -> (r: Vec<String>)
    ensures
        text::views(r@) == written_items(s@),
{
    let chars = text::chars_of(s);
    let mut scan = ItemScan { depth: 0, quoted: false, escaped: false, items: Vec::new() };
    assert(text::views(scan.items@) =~= Seq::empty());
    assert(scan@ == items_scanned(chars@.take(0)));
    for i in 0..chars.len()
        invariant
            chars@ == s@,
            scan.depth <= i,
            scan@ == items_scanned(chars@.take(i as int)),
    {
        assert(chars@.take(i + 1).drop_last() =~= chars@.take(i as int));
        scan.step(chars[i]);
    }
    assert(chars@.take(chars@.len() as int) =~= chars@);
    scan.items
}

/// What came of pruning: texts, or a name that stands twice.
spec fn parts_are(
    parts: Seq<String>,
    failure: Option<String>,
    wanted: Result<Seq<Seq<char>>, Seq<char>>,
) -> bool {
    match failure {
        None => wanted == Ok::<Seq<Seq<char>>, Seq<char>>(text::views(parts)),
        Some(name) => wanted == Err::<Seq<Seq<char>>, Seq<char>>(name@),
    }
}

spec fn text_result(r: Result<String, String>) -> Result<Seq<char>, Seq<char>> {
    match r {
        Ok(text) => Ok(text@),
        Err(name) => Err(name@),
    }
}

fn bracket(open: &str, parts: &Vec<String>, failure: Option<String>, close: &str) -> (r: Result<
    String,
    String,
>)
    ensures
        failure is None ==> text_result(r) == in_brackets(open@, Ok(text::views(parts@)), close@),
        failure matches Some(name) ==> text_result(r) == Err::<Seq<char>, Seq<char>>(name@),
{
    match failure {
        Some(name) => Err(name),
        None => Ok(text::text3(open, text::join(parts, ",").as_str(), close)),
    }
}

fn named_fields(fields: &Vec<FieldShape>) -> (r: Vec<&'static str>)
    ensures
        text::str_views(r@) == field_names(field_views(fields@)),
{
    let mut r: Vec<&'static str> = Vec::new();
    for i in 0..fields.len()
        invariant
            r@.len() == i,
            forall|k: int| 0 <= k < i ==> (#[trigger] r@[k])@ == fields@[k].name@,
    {
        r.push(fields[i].name);
    }
    assert(text::str_views(r@) =~= field_names(field_views(fields@)));
    r
}

fn field_place(fields: &Vec<FieldShape>, name: &str) -> (r: usize)
    ensures
        r == table::position(field_views(fields@), name@),
        r <= fields@.len(),
{
    let ghost rows = field_views(fields@);
    let mut i: usize = 0;
    while i < fields.len()
        invariant
            0 <= i <= fields@.len(),
            rows == field_views(fields@),
            forall|j: int| 0 <= j < i ==> (#[trigger] rows[j]).0 != name@,
        decreases fields@.len() - i,
    {
        assert(rows[i as int].0 == fields@[i as int].name@);
        if text::same_text(fields[i].name, name) {
            proof {
                table::lemma_position(rows, name@, i as int);
            }
            return i;
        }
        i += 1;
    }
    proof {
        table::lemma_position(rows, name@, i as int);
    }
    i
}

fn find_tagged_twice(tag: &'static str, kinds: &Vec<Kind>, s: &str) -> (r: Option<String>)
    ensures
        text::opt_view(r) == tagged_twice(tag@, kind_views(kinds@), s@),
{
    let ghost rows = kind_views(kinds@);
    let written = members::members_in(s);
    let names = members::member_names(&written);
    let tags = vec![tag];
    assert(text::str_views(tags@) =~= seq![tag@]);
    if let Some(name) = members::find_repeated(&names, &tags) {
        return Some(name);
    }
    let kind = match members::find_value(&written, &names, tag) {
        Some(word) => match Json::parse(word.as_str()) {
            Ok(Json::Text(kind)) => kind,
            _ => {
                return None;
            },
        },
        None => {
            return None;
        },
    };
    let mut i: usize = 0;
    while i < kinds.len()
        invariant
            0 <= i <= kinds@.len(),
            rows == kind_views(kinds@),
            forall|j: int| 0 <= j < i ==> (#[trigger] rows[j]).0 != kind@,
            members::name_views(names@) == members::names_of(members::written_views(written@)),
            members::written_views(written@) == members::written_members(s@),
            members::first_repeated(members::names_of(members::written_members(s@)), seq![tag@])
                is None,
            members::value_written(members::written_members(s@), tag@) matches Some(word)
                && members::name_of(word) == Some(kind@),
        decreases kinds@.len() - i,
    {
        assert(rows[i as int] == (kinds@[i as int].name@, text::str_views(
            kinds@[i as int].fields@,
        )));
        if text::same_text(kinds[i].name, kind.as_str()) {
            proof {
                table::lemma_position(rows, kind@, i as int);
            }
            return members::find_repeated(&names, &kinds[i].fields);
        }
        i += 1;
    }
    proof {
        table::lemma_position(rows, kind@, i as int);
    }
    None
}

/// A field of which all is taken.
pub fn whole(name: &'static str) -> (r: FieldShape)
    ensures
        r.name == name,
        r.shape@ == ShapeView::Any,
{
    FieldShape { name, shape: Shape::Any }
}

/// The shape of a record.
pub fn record(fields: Vec<FieldShape>) -> (r: Shape)
    ensures
        r@ == ShapeView::Record(field_views(fields@)),
{
    proof {
        lemma_record_view(fields);
    }
    Shape::Record(fields)
}

/// A value of one of the kinds, with its members named: a list that tells the tag and then all the
/// fields of the kind that the tag names, in their order, is told by their names.
pub open spec fn by_tag(
    value: JsonView,
    tag: Seq<char>,
    kinds: Seq<(Seq<char>, Seq<Seq<char>>)>,
) -> JsonView {
    match value {
        JsonView::Array(items) => if items.len() == 0 {
            value
        } else {
            match items[0] {
                JsonView::Text(kind) => match table::lookup(kinds, kind) {
                    Some(fields) => json::listed(value, seq![tag] + fields),
                    None => value,
                },
                _ => value,
            }
        },
        _ => value,
    }
}

/// A value of one of the kinds, with its members named.
pub fn name_by_tag(value: &Json, tag: &'static str, kinds: &Vec<Kind>) -> (r: Json)
    ensures
        r@ == by_tag(value@, tag@, kind_views(kinds@)),
{
    let items = match value {
        Json::Array(items) => items,
        _ => {
            return value.clone();
        },
    };
    proof {
        json::lemma_array_view(*items);
    }
    if items.len() == 0 {
        return value.clone();
    }
    assert(value@->Array_0[0] == items@[0]@);
    if let Json::Text(kind) = &items[0] {
        let ghost rows = kind_views(kinds@);
        let mut i: usize = 0;
        while i < kinds.len()
            invariant
                0 <= i <= kinds@.len(),
                rows == kind_views(kinds@),
                value@ is Array,
                value@->Array_0.len() > 0,
                value@->Array_0[0] == JsonView::Text(kind@),
                forall|j: int| 0 <= j < i ==> (#[trigger] rows[j]).0 != kind@,
            decreases kinds@.len() - i,
        {
            assert(rows[i as int] == (kinds@[i as int].name@, text::str_views(
                kinds@[i as int].fields@,
            )));
            if text::same_text(kinds[i].name, kind.as_str()) {
                proof {
                    table::lemma_position(rows, kind@, i as int);
                }
                let mut names: Vec<&'static str> = Vec::new();
                names.push(tag);
                let fields = &kinds[i].fields;
                for k in 0..fields.len()
                    invariant
                        names@.len() == k + 1,
                        names@[0]@ == tag@,
                        forall|j: int| 0 <= j < k ==> (#[trigger] names@[j + 1])@ == fields@[j]@,
                {
                    let ghost before = names@;
                    names.push(fields[k]);
                    proof {
                        assert forall|j: int| 0 <= j < k + 1 implies (#[trigger] names@[j + 1])@
                            == fields@[j]@ by {
                            if j < k {
                                assert(names@[j + 1] == before[j + 1]);
                            }
                        }
                    }
                }
                proof {
                    let wanted = seq![tag@] + text::str_views(fields@);
                    assert(text::str_views(names@) =~= wanted) by {
                        assert forall|j: int| 0 <= j < wanted.len() implies text::str_views(
                            names@,
                        )[j] == wanted[j] by {
                            if j > 0 {
                                assert(names@[(j - 1) + 1]@ == fields@[j - 1]@);
                            }
                        }
                    }
                }
                return value.listed(&names);
            }
            i += 1;
        }
        proof {
            table::lemma_position(rows, kind@, i as int);
        }
    }
    value.clone()
}

/// What a member that is no field holds changes nothing of what is taken.
pub proof fn law_other_members_are_passed_over(
    fields: Seq<(Seq<char>, ShapeView)>,
    written: Seq<(Seq<char>, Seq<char>)>,
    word: Seq<char>,
    value: Seq<char>,
)
    requires
        members::name_of(word) is Some,
        !field_names(fields).contains(members::name_of(word)->Some_0),
    ensures
        pruned_members(fields, written.push((word, value))) == pruned_members(fields, written),
{
    let name = members::name_of(word)->Some_0;
    let after = written.push((word, value));
    assert(after.drop_last() =~= written);
    table::lemma_position_bounds(fields, name);
    let at = table::position(fields, name);
    if at < fields.len() {
        assert(field_names(fields)[at] == name);
    }
}

impl Shape {
    fn prune_items(&self, s: &str) -> (r: Result<String, String>)
        ensures
            text_result(r) == in_brackets("["@, pruned_items(self@, written_items(s@)), "]"@),
        decreases self, 1nat,
    {
        let items = items_in(s);
        let ghost all = text::views(items@);
        let mut parts: Vec<String> = Vec::new();
        let mut failure: Option<String> = None;
        assert(all.take(0) =~= Seq::empty());
        assert(text::views(parts@) =~= Seq::empty());
        for i in 0..items.len()
            invariant
                all == text::views(items@),
                parts_are(parts@, failure, pruned_items(self@, all.take(i as int))),
        {
            assert(all.take(i + 1).drop_last() =~= all.take(i as int));
            assert(all.take(i + 1).last() == items@[i as int]@);
            if failure.is_none() {
                let ghost before = text::views(parts@);
                match self.prune(items[i].as_str()) {
                    Ok(part) => {
                        parts.push(part);
                        assert(text::views(parts@) =~= before.push(part@));
                    },
                    Err(name) => {
                        failure = Some(name);
                    },
                }
            }
        }
        assert(all.take(all.len() as int) =~= all);
        bracket("[", &parts, failure, "]")
    }

    /// The text of a value without the members that a reader does not know; or the name of a member
    /// that it knows and that stands there twice.
    fn prune(&self, s: &str) -> (r: Result<String, String>)
        ensures
            text_result(r) == pruned(self@, s@),
        decreases self, 0nat,
    {
        let opened = opens(s);
        match self {
            Shape::Any => Ok(s.to_owned()),
            Shape::List(inner) => if opened == Some('[') {
                inner.prune_items(s)
            } else {
                Ok(s.to_owned())
            },
            Shape::Tagged { tag, kinds } => if opened == Some('{') {
                match find_tagged_twice(tag, kinds, s) {
                    Some(name) => Err(name),
                    None => Ok(s.to_owned()),
                }
            } else {
                Ok(s.to_owned())
            },
            Shape::Record(fields) => {
                proof {
                    lemma_record_view(*fields);
                }
                let ghost rows = field_views(fields@);
                if opened == Some('{') {
                    let written = members::members_in(s);
                    let names = members::member_names(&written);
                    if let Some(name) = members::find_repeated(&names, &named_fields(fields)) {
                        return Err(name);
                    }
                    let ghost all = members::written_views(written@);
                    let mut parts: Vec<String> = Vec::new();
                    let mut failure: Option<String> = None;
                    assert(all.take(0) =~= Seq::empty());
                    assert(text::views(parts@) =~= Seq::empty());
                    assert(members::name_views(names@).len() == names@.len());
                    for i in 0..written.len()
                        invariant
                            *self == Shape::Record(*fields),
                            rows == field_views(fields@),
                            all == members::written_views(written@),
                            names@.len() == written@.len(),
                            members::name_views(names@) == members::names_of(all),
                            parts_are(parts@, failure, pruned_members(rows, all.take(i as int))),
                    {
                        assert(all.take(i + 1).drop_last() =~= all.take(i as int));
                        assert(all.take(i + 1).last() == all[i as int]);
                        assert(members::name_views(names@)[i as int] == text::opt_view(
                            names@[i as int],
                        ));
                        let ghost before = text::views(parts@);
                        let member = &written[i];
                        if failure.is_none() {
                            match &names[i] {
                                None => {
                                    let part = text::text3(
                                        member.name.as_str(),
                                        ":",
                                        member.value.as_str(),
                                    );
                                    parts.push(part);
                                    assert(text::views(parts@) =~= before.push(part@));
                                },
                                Some(name) => {
                                    let at = field_place(fields, name.as_str());
                                    if at < fields.len() {
                                        assert(rows[at as int].1 == fields@[at as int].shape@);
                                        assert(decreases_to!(*self => self->Record_0@[at as int]));
                                        match fields[at].shape.prune(member.value.as_str()) {
                                            Ok(value) => {
                                                let part = text::text3(
                                                    member.name.as_str(),
                                                    ":",
                                                    value.as_str(),
                                                );
                                                parts.push(part);
                                                assert(text::views(parts@) =~= before.push(part@));
                                            },
                                            Err(name) => {
                                                failure = Some(name);
                                            },
                                        }
                                    }
                                },
                            }
                        }
                    }
                    assert(all.take(all.len() as int) =~= all);
                    bracket("{", &parts, failure, "}")
                } else if opened == Some('[') {
                    let items = items_in(s);
                    let ghost all = text::views(items@);
                    let mut parts: Vec<String> = Vec::new();
                    let mut failure: Option<String> = None;
                    assert(all.take(0) =~= Seq::empty());
                    assert(text::views(parts@) =~= Seq::empty());
                    for i in 0..items.len()
                        invariant
                            *self == Shape::Record(*fields),
                            rows == field_views(fields@),
                            all == text::views(items@),
                            parts_are(parts@, failure, pruned_fields(rows, all.take(i as int))),
                    {
                        assert(all.take(i + 1).drop_last() =~= all.take(i as int));
                        assert(all.take(i + 1)[i as int] == items@[i as int]@);
                        let ghost before = text::views(parts@);
                        if failure.is_none() {
                            let part = if i < fields.len() {
                                assert(rows[i as int].1 == fields@[i as int].shape@);
                                assert(decreases_to!(*self => self->Record_0@[i as int]));
                                fields[i].shape.prune(items[i].as_str())
                            } else {
                                Ok(items[i].clone())
                            };
                            match part {
                                Ok(part) => {
                                    parts.push(part);
                                    assert(text::views(parts@) =~= before.push(part@));
                                },
                                Err(name) => {
                                    failure = Some(name);
                                },
                            }
                        }
                    }
                    assert(all.take(all.len() as int) =~= all);
                    bracket("[", &parts, failure, "]")
                } else {
                    Ok(s.to_owned())
                }
            },
        }
    }

    /// What a reader takes of a text.
    pub fn read(&self, s: &str) -> (r: Result<Json, String>)
        ensures
            json::parse_view(r) == shaped(self@, s@),
    {
        if let Some(message) = skip_text(s) {
            return Err(message);
        }
        match self.prune(s) {
            Ok(known) => Json::parse(known.as_str()),
            Err(name) => Err(text::text3("duplicate field `", name.as_str(), "`")),
        }
    }
}

/// The parts of a list are kept in their order, and the first of them that tells something twice is the
/// fault.
pub proof fn law_items_are_kept_in_order(
    shape: ShapeView,
    items: Seq<Seq<char>>,
    item: Seq<char>,
)
    ensures
        pruned_items(shape, Seq::empty()) == Ok::<Seq<Seq<char>>, Seq<char>>(Seq::empty()),
        pruned_items(shape, items) matches Err(name) ==> pruned_items(shape, items.push(item))
            == Err::<Seq<Seq<char>>, Seq<char>>(name),
        pruned_items(shape, items) matches Ok(before) ==> match pruned(shape, item) {
            Ok(kept) => pruned_items(shape, items.push(item)) == Ok::<Seq<Seq<char>>, Seq<char>>(
                before.push(kept),
            ),
            Err(name) => pruned_items(shape, items.push(item)) == Err::<Seq<Seq<char>>, Seq<char>>(
                name,
            ),
        },
        pruned(ShapeView::Any, item) == Ok::<Seq<char>, Seq<char>>(item),
{
    assert(items.push(item).drop_last() =~= items);
}

/// A value that is no list is left as it is; a list is told by its names only where its first item names a
/// kind and it has all the fields of the kind.
pub proof fn law_lists_are_told_by_their_kind(
    value: JsonView,
    tag: Seq<char>,
    kinds: Seq<(Seq<char>, Seq<Seq<char>>)>,
    kind: Seq<char>,
    fields: Seq<Seq<char>>,
)
    ensures
        !(value is Array) ==> by_tag(value, tag, kinds) == value,
        value matches JsonView::Array(items) ==> (items.len() == fields.len() + 1 && items[0]
            == JsonView::Text(kind) && table::lookup(kinds, kind) == Some(fields) ==> (by_tag(
            value,
            tag,
            kinds,
        ) matches JsonView::Object(m) && m.len() == items.len() && m[0] == (
            tag,
            JsonView::Text(kind),
        ) && forall|i: int|
            0 < i < items.len() ==> (#[trigger] m[i]) == (fields[i - 1], items[i]))),
{
    if let JsonView::Array(items) = value {
        if items.len() == fields.len() + 1 && items[0] == JsonView::Text(kind) && table::lookup(
            kinds,
            kind,
        ) == Some(fields) {
            let names = seq![tag] + fields;
            assert(names.len() == items.len());
            let m = by_tag(value, tag, kinds)->Object_0;
            assert(m[0] == (names[0], items[0]));
            assert forall|i: int| 0 < i < items.len() implies (#[trigger] m[i]) == (
                fields[i - 1],
                items[i],
            ) by {
                assert(names[i] == fields[i - 1]);
            }
        }
    }
}

} // verus!
