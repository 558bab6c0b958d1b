//! Text as sequences of characters: the string operations the rest of the crate is built on.
use vstd::prelude::*;

verus! {

/// `String::push` of the standard library: the character is appended to the string.
pub assume_specification[ String::push ](s: &mut String, c: char)
    ensures
        final(s)@ == old(s)@.push(c),
;

/// The views of a sequence of strings.
pub open spec fn views(strings: Seq<String>) -> Seq<Seq<char>> {
    Seq::new(strings.len(), |i: int| strings[i]@)
}

/// The view of an optional string.
pub open spec fn opt_view(text: Option<String>) -> Option<Seq<char>> {
    match text {
        Some(t) => Some(t@),
        None => None,
    }
}

/// The characters of a string, in order.
pub fn chars_of(s: &str) -> (r: Vec<char>)
    ensures
        r@ == s@,
{
    let mut r: Vec<char> = Vec::new();
    for c in it: s.chars()
        invariant
            it.seq() == s@,
            r@ == s@.take(it.index() as int),
    {
        r.push(c);
    }
    assert(s@.take(s@.len() as int) =~= s@);
    r
}

/// The string made of `chars[from..to]`.
pub fn text_between(chars: &Vec<char>, from: usize, to: usize) -> (r: String)
    requires
        from <= to <= chars@.len(),
    ensures
        r@ == chars@.subrange(from as int, to as int),
{
    let mut r = String::new();
    let mut i: usize = from;
    while i < to
        invariant
            from <= i <= to <= chars@.len(),
            r@ == chars@.subrange(from as int, i as int),
        decreases to - i,
    {
        r.push(chars[i]);
        proof {
            assert(chars@.subrange(from as int, i as int).push(chars@[i as int])
                =~= chars@.subrange(from as int, i + 1));
        }
        i += 1;
    }
    r
}

/// The string made of all of `chars`.
pub fn text_of(chars: &Vec<char>) -> (r: String)
    ensures
        r@ == chars@,
{
    let r = text_between(chars, 0, chars.len());
    assert(chars@.subrange(0, chars@.len() as int) =~= chars@);
    r
}

/// Whether two texts hold the same characters.
pub fn same_text(a: &str, b: &str) -> (r: bool)
    ensures
        r == (a@ == b@),
{
    a.to_owned() == b.to_owned()
}

/// Whether an optional string holds exactly `text`.
pub fn is_text(value: &Option<String>, text: &str) -> (r: bool)
    ensures
        r == (opt_view(*value) == Some(text@)),
{
    match value {
        Some(v) => same_text(v.as_str(), text),
        None => false,
    }
}

/// A copy of an optional text.
pub fn copy_option(text: &Option<String>) -> (r: Option<String>)
    ensures
        r == *text,
{
    match text {
        Some(text) => Some(text.clone()),
        None => None,
    }
}

/// The decimal digit that stands for `n`.
pub open spec fn digit(n: nat) -> char {
    (48 + n) as char
}

/// The decimal numeral of `n`, without leading zeros.
pub open spec fn decimal(n: nat) -> Seq<char>
    decreases n,
{
    if n < 10 {
        seq![digit(n)]
    } else {
        decimal(n / 10).push(digit(n % 10))
    }
}

/// The decimal numeral of `n`, with a sign where `n` is negative.
pub open spec fn decimal_int(n: int) -> Seq<char> {
    if n < 0 {
        seq!['-'] + decimal((-n) as nat)
    } else {
        decimal(n as nat)
    }
}

fn digit_char(d: u8) -> (r: char)
    requires
        d < 10,
    ensures
        r == digit(d as nat),
{
    (48 + d) as char
}

/// Writes `n` in decimal.
pub fn decimal_u64(n: u64) -> (r: String)
    ensures
        r@ == decimal(n as nat),
    decreases n,
{
    if n < 10 {
        let mut r = String::new();
        r.push(digit_char(n as u8));
        assert(r@ =~= decimal(n as nat));
        r
    } else {
        let mut r = decimal_u64(n / 10);
        r.push(digit_char((n % 10) as u8));
        r
    }
}

/// Writes a length or an index in decimal.
pub fn decimal_usize(n: usize) -> (r: String)
    ensures
        r@ == decimal(n as nat),
{
    decimal_u64(n as u64)
}

/// Writes `n` in decimal, with a sign where it is negative.
pub fn decimal_i64(n: i64) -> (r: String)
    ensures
        r@ == decimal_int(n as int),
{
    if n < 0 {
        let mut r = String::new();
        r.push('-');
        let magnitude: u64 = (-(n as i128)) as u64;
        let digits = decimal_u64(magnitude);
        r.append(digits.as_str());
        assert(r@ =~= decimal_int(n as int));
        r
    } else {
        decimal_u64(n as u64)
    }
}

/// The characters that count as white space.
pub open spec fn is_white(c: char) -> bool {
    ||| 0x9 <= c as u32 <= 0xd
    ||| c as u32 == 0x20
    ||| c as u32 == 0x85
    ||| c as u32 == 0xa0
    ||| c as u32 == 0x1680
    ||| 0x2000 <= c as u32 <= 0x200a
    ||| c as u32 == 0x2028
    ||| c as u32 == 0x2029
    ||| c as u32 == 0x202f
    ||| c as u32 == 0x205f
    ||| c as u32 == 0x3000
}

fn white(c: char) -> (r: bool)
    ensures
        r == is_white(c),
{
    let n: u32 = c as u32;
    (0x9 <= n && n <= 0xd) || n == 0x20 || n == 0x85 || n == 0xa0 || n == 0x1680 || (0x2000 <= n
        && n <= 0x200a) || n == 0x2028 || n == 0x2029 || n == 0x202f || n == 0x205f || n == 0x3000
}

/// The text without the white space that it starts with.
pub open spec fn trim_start(s: Seq<char>) -> Seq<char>
    decreases s.len(),
{
    if s.len() > 0 && is_white(s[0]) {
        trim_start(s.drop_first())
    } else {
        s
    }
}

/// The text without the white space that it ends with.
pub open spec fn trim_end(s: Seq<char>) -> Seq<char>
    decreases s.len(),
{
    if s.len() > 0 && is_white(s.last()) {
        trim_end(s.drop_last())
    } else {
        s
    }
}

/// The text without white space at either end.
pub open spec fn trim(s: Seq<char>) -> Seq<char> {
    trim_end(trim_start(s))
}

/// Whether the text is nothing but white space.
pub open spec fn is_blank(s: Seq<char>) -> bool {
    forall|i: int| 0 <= i < s.len() ==> is_white(#[trigger] s[i])
}

proof fn lemma_trim_end_white(s: Seq<char>)
    requires
        is_blank(s),
    ensures
        trim_end(s).len() == 0,
    decreases s.len(),
{
    if s.len() > 0 {
        assert(is_white(s[s.len() - 1]));
        assert(is_blank(s.drop_last())) by {
            assert forall|i: int| 0 <= i < s.drop_last().len() implies is_white(
                #[trigger] s.drop_last()[i],
            ) by {
                assert(is_white(s[i]));
            }
        }
        lemma_trim_end_white(s.drop_last());
    }
}

proof fn lemma_trim_end_keeps(s: Seq<char>, k: int)
    requires
        0 <= k < s.len(),
        !is_white(s[k]),
    ensures
        trim_end(s).len() > k,
    decreases s.len(),
{
    if is_white(s.last()) {
        assert(s.drop_last()[k] == s[k]);
        lemma_trim_end_keeps(s.drop_last(), k);
    }
}

/// A text trims to nothing exactly where it is blank.
pub proof fn lemma_blank_trims_to_nothing(s: Seq<char>)
    ensures
        trim(s).len() == 0 <==> is_blank(s),
    decreases s.len(),
{
    if s.len() > 0 && is_white(s[0]) {
        lemma_blank_trims_to_nothing(s.drop_first());
        if is_blank(s.drop_first()) {
            assert forall|i: int| 0 <= i < s.len() implies is_white(#[trigger] s[i]) by {
                if i > 0 {
                    assert(is_white(s.drop_first()[i - 1]));
                }
            }
        } else {
            let j = choose|j: int|
                0 <= j < s.drop_first().len() && !is_white(#[trigger] s.drop_first()[j]);
            assert(!is_white(s[j + 1]));
        }
    } else if s.len() > 0 {
        lemma_trim_end_keeps(s, 0);
        assert(!is_white(s[0]));
    } else {
        lemma_trim_end_white(s);
    }
}

/// The text without white space at either end.
pub fn trimmed(s: &str) -> (r: String)
    ensures
        r@ == trim(s@),
{
    let chars = chars_of(s);
    let n: usize = chars.len();
    let mut start: usize = 0;
    assert(chars@.skip(0) =~= chars@);
    while start < n && white(chars[start])
        invariant
            0 <= start <= n == chars@.len(),
            trim_start(chars@) == trim_start(chars@.skip(start as int)),
        decreases n - start,
    {
        assert(chars@.skip(start as int).drop_first() =~= chars@.skip(start + 1));
        start += 1;
    }
    let ghost inner = chars@.skip(start as int);
    assert(trim_start(inner) == inner);
    let mut end: usize = n;
    assert(inner.take(end - start) =~= inner);
    while end > start && white(chars[end - 1])
        invariant
            0 <= start <= end <= n == chars@.len(),
            inner == chars@.skip(start as int),
            trim_end(inner) == trim_end(inner.take(end - start)),
        decreases end,
    {
        assert(inner.take(end - start).drop_last() =~= inner.take(end - start - 1));
        assert(inner.take(end - start).last() == chars@[end - 1]);
        end -= 1;
    }
    assert(inner.take(end - start) =~= chars@.subrange(start as int, end as int));
    text_between(&chars, start, end)
}

/// Whether the text is nothing but white space.
pub fn blank(s: &str) -> (r: bool)
    ensures
        r == is_blank(s@),
{
    for c in it: s.chars()
        invariant
            it.seq() == s@,
            forall|i: int| 0 <= i < it.index() ==> is_white(#[trigger] s@[i]),
    {
        if !white(c) {
            assert(!is_white(s@[it.index() as int]));
            return false;
        }
    }
    true
}

/// The first `n` characters, or all of them where there are fewer.
pub open spec fn first_chars(s: Seq<char>, n: nat) -> Seq<char> {
    if s.len() <= n {
        s
    } else {
        s.take(n as int)
    }
}

/// The first `n` characters of `s`, or all of them where there are fewer.
pub fn head(s: &str, n: usize) -> (r: String)
    ensures
        r@ == first_chars(s@, n as nat),
{
    let chars = chars_of(s);
    if chars.len() <= n {
        s.to_owned()
    } else {
        let r = text_between(&chars, 0, n);
        assert(chars@.subrange(0, n as int) =~= chars@.take(n as int));
        r
    }
}

/// `text` cut to `max` characters, with `mark` behind it where something was cut.
pub open spec fn clipped(s: Seq<char>, max: nat, mark: Seq<char>) -> Seq<char> {
    if s.len() <= max {
        s
    } else {
        s.take(max as int) + mark
    }
}

/// Cuts `s` to `max` characters and adds `mark` where something was cut.
pub fn clip(s: &str, max: usize, mark: &str) -> (r: String)
    ensures
        r@ == clipped(s@, max as nat, mark@),
{
    if s.unicode_len() <= max {
        s.to_owned()
    } else {
        let mut r = head(s, max);
        r.append(mark);
        r
    }
}

/// Whether `s` starts with `prefix`.
pub open spec fn starts_with(s: Seq<char>, prefix: Seq<char>) -> bool {
    prefix.len() <= s.len() && s.take(prefix.len() as int) == prefix
}

/// Whether `part` stands in `s` at `at`.
pub open spec fn stands_at(s: Seq<char>, part: Seq<char>, at: int) -> bool {
    0 <= at && at + part.len() <= s.len() && s.subrange(at, at + part.len()) == part
}

/// Whether `part` stands anywhere in `s`.
pub open spec fn contains_text(s: Seq<char>, part: Seq<char>) -> bool {
    exists|at: int| #[trigger] stands_at(s, part, at)
}

fn chars_stand_at(chars: &Vec<char>, part: &Vec<char>, at: usize) -> (r: bool)
    requires
        at + part@.len() <= chars@.len(),
    ensures
        r == stands_at(chars@, part@, at as int),
{
    let n: usize = part.len();
    let length: usize = chars.len();
    let mut i: usize = 0;
    while i < n
        invariant
            0 <= i <= n == part@.len(),
            length == chars@.len(),
            at + n <= length,
            forall|k: int| 0 <= k < i ==> chars@[at + k] == part@[k],
        decreases n - i,
    {
        if chars[at + i] != part[i] {
            assert(chars@.subrange(at as int, at + n)[i as int] != part@[i as int]);
            return false;
        }
        i += 1;
    }
    assert(chars@.subrange(at as int, at + n) =~= part@);
    true
}

/// Whether `s` starts with `prefix`.
pub fn has_prefix(s: &str, prefix: &str) -> (r: bool)
    ensures
        r == starts_with(s@, prefix@),
{
    let chars = chars_of(s);
    let part = chars_of(prefix);
    if part.len() > chars.len() {
        false
    } else {
        assert(chars@.subrange(0, part@.len() as int) =~= chars@.take(part@.len() as int));
        chars_stand_at(&chars, &part, 0)
    }
}

/// Whether `part` stands anywhere in `s`.
pub fn has_text(s: &str, part: &str) -> (r: bool)
    ensures
        r == contains_text(s@, part@),
{
    let chars = chars_of(s);
    let wanted = chars_of(part);
    if wanted.len() > chars.len() {
        return false;
    }
    let last: usize = chars.len() - wanted.len();
    let mut at: usize = 0;
    while at < last
        invariant
            at <= last,
            last + wanted@.len() == chars@.len(),
            chars@ == s@,
            wanted@ == part@,
            forall|k: int| 0 <= k < at ==> !stands_at(s@, part@, k),
        decreases last - at,
    {
        if chars_stand_at(&chars, &wanted, at) {
            assert(stands_at(s@, part@, at as int));
            return true;
        }
        at += 1;
    }
    let found = chars_stand_at(&chars, &wanted, last);
    proof {
        if !found {
            assert forall|k: int| !stands_at(s@, part@, k) by {
                if k < 0 || k > last {
                }
            }
        } else {
            assert(stands_at(s@, part@, last as int));
        }
    }
    found
}

/// `s` with every `from` replaced by `to`.
pub open spec fn replaced(s: Seq<char>, from: char, to: char) -> Seq<char> {
    Seq::new(
        s.len(),
        |i: int|
            if s[i] == from {
                to
            } else {
                s[i]
            },
    )
}

/// Replaces every `from` in `s` by `to`.
pub fn replace_char(s: &str, from: char, to: char) -> (r: String)
    ensures
        r@ == replaced(s@, from, to),
{
    let mut r = String::new();
    for c in it: s.chars()
        invariant
            it.seq() == s@,
            r@ == replaced(s@, from, to).take(it.index() as int),
    {
        r.push(
            if c == from {
                to
            } else {
                c
            },
        );
        assert(r@ =~= replaced(s@, from, to).take(it.index() + 1));
    }
    assert(replaced(s@, from, to).take(s@.len() as int) =~= replaced(s@, from, to));
    r
}

/// The ASCII upper-case form of a character.
pub open spec fn upper(c: char) -> char {
    if 97 <= c as u32 <= 122 {
        ((c as u32 - 32) as u32) as char
    } else {
        c
    }
}

/// The ASCII lower-case form of a character.
pub open spec fn lower(c: char) -> char {
    if 65 <= c as u32 <= 90 {
        ((c as u32 + 32) as u32) as char
    } else {
        c
    }
}

/// `s` in ASCII upper case.
pub open spec fn upper_text(s: Seq<char>) -> Seq<char> {
    Seq::new(s.len(), |i: int| upper(s[i]))
}

/// `s` in ASCII lower case.
pub open spec fn lower_text(s: Seq<char>) -> Seq<char> {
    Seq::new(s.len(), |i: int| lower(s[i]))
}

fn upper_char(c: char) -> (r: char)
    ensures
        r == upper(c),
{
    let n: u32 = c as u32;
    if 97 <= n && n <= 122 {
        ((n - 32) as u8) as char
    } else {
        c
    }
}

fn lower_char(c: char) -> (r: char)
    ensures
        r == lower(c),
{
    let n: u32 = c as u32;
    if 65 <= n && n <= 90 {
        ((n + 32) as u8) as char
    } else {
        c
    }
}

/// `s` in ASCII upper case.
pub fn to_upper(s: &str) -> (r: String)
    ensures
        r@ == upper_text(s@),
{
    let mut r = String::new();
    for c in it: s.chars()
        invariant
            it.seq() == s@,
            r@ == upper_text(s@).take(it.index() as int),
    {
        r.push(upper_char(c));
        assert(r@ =~= upper_text(s@).take(it.index() + 1));
    }
    assert(upper_text(s@).take(s@.len() as int) =~= upper_text(s@));
    r
}

/// `s` in ASCII lower case.
pub fn to_lower(s: &str) -> (r: String)
    ensures
        r@ == lower_text(s@),
{
    let mut r = String::new();
    for c in it: s.chars()
        invariant
            it.seq() == s@,
            r@ == lower_text(s@).take(it.index() as int),
    {
        r.push(lower_char(c));
        assert(r@ =~= lower_text(s@).take(it.index() + 1));
    }
    assert(lower_text(s@).take(s@.len() as int) =~= lower_text(s@));
    r
}

/// The parts in order with `separator` between them.
pub open spec fn joined(parts: Seq<Seq<char>>, separator: Seq<char>) -> Seq<char>
    decreases parts.len(),
{
    if parts.len() == 0 {
        Seq::empty()
    } else if parts.len() == 1 {
        parts[0]
    } else {
        joined(parts.drop_last(), separator) + separator + parts.last()
    }
}

/// Joins `parts` with `separator` between them.
pub fn join(parts: &Vec<String>, separator: &str) -> (r: String)
    ensures
        r@ == joined(views(parts@), separator@),
{
    let mut r = String::new();
    let mut i: usize = 0;
    while i < parts.len()
        invariant
            0 <= i <= parts@.len(),
            r@ == joined(views(parts@).take(i as int), separator@),
        decreases parts@.len() - i,
    {
        proof {
            assert(views(parts@).take(i + 1).drop_last() =~= views(parts@).take(i as int));
            assert(views(parts@).take(i + 1).last() == parts@[i as int]@);
        }
        if i > 0 {
            r.append(separator);
        } else {
            assert(r@ + parts@[0]@ =~= parts@[0]@);
        }
        r.append(parts[i].as_str());
        i += 1;
    }
    assert(views(parts@).take(parts@.len() as int) =~= views(parts@));
    r
}

/// The index of the first `c` in `s`, or the length where there is none.
pub open spec fn first_index(s: Seq<char>, c: char) -> nat
    decreases s.len(),
{
    if s.len() == 0 || s[0] == c {
        0
    } else {
        1 + first_index(s.drop_first(), c)
    }
}

/// What is known of the first index of `c`.
pub proof fn lemma_first_index(s: Seq<char>, c: char, k: int)
    requires
        0 <= k <= s.len(),
        forall|i: int| 0 <= i < k ==> s[i] != c,
        k < s.len() ==> s[k] == c,
    ensures
        first_index(s, c) == k,
    decreases s.len(),
{
    if s.len() > 0 && s[0] != c {
        assert forall|i: int| 0 <= i < k - 1 implies s.drop_first()[i] != c by {
            assert(s[i + 1] != c);
        }
        lemma_first_index(s.drop_first(), c, k - 1);
    }
}

/// The first index of `c` is the least one, and the length where `c` does not occur.
pub proof fn lemma_first_index_is_least(s: Seq<char>, c: char)
    ensures
        first_index(s, c) <= s.len(),
        forall|i: int| 0 <= i < first_index(s, c) ==> s[i] != c,
        first_index(s, c) < s.len() ==> s[first_index(s, c) as int] == c,
    decreases s.len(),
{
    if s.len() > 0 && s[0] != c {
        lemma_first_index_is_least(s.drop_first(), c);
        let k = first_index(s.drop_first(), c) as int;
        assert(k < s.drop_first().len() ==> s.drop_first()[k] == s[k + 1]);
        assert forall|i: int| 0 <= i < first_index(s, c) implies s[i] != c by {
            if i > 0 {
                assert(s.drop_first()[i - 1] != c);
            }
        }
    }
}

fn index_from(chars: &Vec<char>, from: usize, c: char) -> (r: usize)
    requires
        from <= chars@.len(),
    ensures
        from <= r <= chars@.len(),
        r == from + first_index(chars@.skip(from as int), c),
{
    let mut i: usize = from;
    while i < chars.len() && chars[i] != c
        invariant
            from <= i <= chars@.len(),
            forall|k: int| from <= k < i ==> chars@[k] != c,
        decreases chars@.len() - i,
    {
        i += 1;
    }
    proof {
        lemma_first_index(chars@.skip(from as int), c, i - from);
    }
    i
}

/// A line without the carriage return that it may end with.
pub open spec fn without_cr(s: Seq<char>) -> Seq<char> {
    if s.len() > 0 && s.last() == '\r' {
        s.drop_last()
    } else {
        s
    }
}

/// What constant texts stand for.
pub open spec fn str_views(texts: Seq<&'static str>) -> Seq<Seq<char>> {
    Seq::new(texts.len(), |i: int| texts[i]@)
}

/// Whether no control character of ASCII stands in a text; so it is one line.
pub open spec fn is_plain(s: Seq<char>) -> bool {
    forall|i: int| 0 <= i < s.len() ==> (#[trigger] s[i]) as u32 >= 32
}

/// Lines, each with a line feed behind it.
pub open spec fn with_feeds(lines: Seq<Seq<char>>) -> Seq<char>
    decreases lines.len(),
{
    if lines.len() == 0 {
        Seq::empty()
    } else {
        lines[0] + seq!['\n'] + with_feeds(lines.drop_first())
    }
}

/// Plain lines that were written one after the other, each with a line feed behind it, are told apart
/// again.
pub proof fn law_lines_are_told_apart(lines: Seq<Seq<char>>)
    requires
        forall|i: int| 0 <= i < lines.len() ==> is_plain(#[trigger] lines[i]),
    ensures
        lines_of(with_feeds(lines)) == lines,
    decreases lines.len(),
{
    if lines.len() > 0 {
        let rest = lines.drop_first();
        assert forall|i: int| 0 <= i < rest.len() implies is_plain(#[trigger] rest[i]) by {
            assert(rest[i] == lines[i + 1]);
        }
        law_lines_are_told_apart(rest);
        let s = with_feeds(lines);
        let k = lines[0].len() as int;
        assert forall|i: int| 0 <= i < k implies s[i] != '\n' by {
            assert(s[i] == lines[0][i]);
        }
        assert(s[k] == '\n');
        lemma_first_index(s, '\n', k);
        assert(s.take(k) =~= lines[0]);
        assert(s.skip(k + 1) =~= with_feeds(rest));
        if k > 0 {
            assert(lines[0][k - 1] as u32 >= 32);
        }
        assert(seq![lines[0]] + rest =~= lines);
    } else {
        assert(lines =~= Seq::empty());
    }
}

/// The lines of a text: what stands between line feeds, each without a carriage return before its
/// line feed. A final line feed starts no further line.
pub open spec fn lines_of(s: Seq<char>) -> Seq<Seq<char>>
    decreases s.len(),
{
    let k = first_index(s, '\n');
    if s.len() == 0 {
        Seq::empty()
    } else if k >= s.len() {
        seq![s]
    } else {
        seq![without_cr(s.take(k as int))] + lines_of(s.skip((k + 1) as int))
    }
}

/// Splits a text into its lines.
pub fn lines(s: &str) -> (r: Vec<String>)
    ensures
        views(r@) == lines_of(s@),
{
    let chars = chars_of(s);
    let n: usize = chars.len();
    let mut r: Vec<String> = Vec::new();
    let mut start: usize = 0;
    assert(chars@.skip(0) =~= chars@);
    assert(views(r@) + lines_of(s@) =~= lines_of(s@));
    while start < n
        invariant
            0 <= start <= n == chars@.len(),
            chars@ == s@,
            views(r@) + lines_of(chars@.skip(start as int)) == lines_of(s@),
        decreases n - start,
    {
        let ghost rest = chars@.skip(start as int);
        let ghost before = views(r@);
        let k: usize = index_from(&chars, start, '\n');
        if k >= n {
            let line = text_between(&chars, start, n);
            assert(line@ =~= rest);
            r.push(line);
            proof {
                assert(views(r@) =~= before + seq![rest]);
                assert(chars@.skip(n as int) =~= Seq::<char>::empty());
                assert(views(r@) + lines_of(chars@.skip(n as int)) =~= views(r@));
            }
            start = n;
        } else {
            let end: usize = if k > start && chars[k - 1] == '\r' {
                k - 1
            } else {
                k
            };
            let line = text_between(&chars, start, end);
            proof {
                assert(rest.take(k - start) =~= chars@.subrange(start as int, k as int));
                if k > start {
                    assert(rest.take(k - start).last() == chars@[k - 1]);
                }
                assert(without_cr(rest.take(k - start)) =~= line@);
                assert(rest.skip(k - start + 1) =~= chars@.skip(k + 1));
            }
            r.push(line);
            proof {
                assert(views(r@) =~= before + seq![line@]);
                assert(views(r@) + lines_of(chars@.skip(k + 1)) =~= before + (seq![line@]
                    + lines_of(chars@.skip(k + 1))));
            }
            start = k + 1;
        }
    }
    assert(chars@.skip(n as int) =~= Seq::<char>::empty());
    assert(views(r@) + Seq::<Seq<char>>::empty() =~= views(r@));
    r
}

/// The pieces of a text, each up to and with a line feed; the last may have none.
pub open spec fn line_pieces(s: Seq<char>) -> Seq<Seq<char>>
    decreases s.len(),
{
    let k = first_index(s, '\n');
    if s.len() == 0 {
        Seq::empty()
    } else if k >= s.len() {
        seq![s]
    } else {
        seq![s.take((k + 1) as int)] + line_pieces(s.skip((k + 1) as int))
    }
}

/// Splits a text behind each of its line feeds.
pub fn pieces(s: &str) -> (r: Vec<String>)
    ensures
        views(r@) == line_pieces(s@),
{
    let chars = chars_of(s);
    let n: usize = chars.len();
    let mut r: Vec<String> = Vec::new();
    let mut start: usize = 0;
    assert(chars@.skip(0) =~= chars@);
    assert(views(r@) + line_pieces(s@) =~= line_pieces(s@));
    while start < n
        invariant
            0 <= start <= n == chars@.len(),
            chars@ == s@,
            views(r@) + line_pieces(chars@.skip(start as int)) == line_pieces(s@),
        decreases n - start,
    {
        let ghost rest = chars@.skip(start as int);
        let ghost before = views(r@);
        let k: usize = index_from(&chars, start, '\n');
        let end: usize = if k >= n {
            n
        } else {
            k + 1
        };
        let piece = text_between(&chars, start, end);
        proof {
            if k >= n {
                assert(piece@ =~= rest);
                assert(chars@.skip(n as int) =~= Seq::<char>::empty());
            } else {
                assert(piece@ =~= rest.take(k - start + 1));
                assert(rest.skip(k - start + 1) =~= chars@.skip(k + 1));
            }
        }
        r.push(piece);
        proof {
            assert(views(r@) =~= before + seq![piece@]);
            assert(views(r@) + line_pieces(chars@.skip(end as int)) =~= before + (seq![piece@]
                + line_pieces(chars@.skip(end as int))));
        }
        start = end;
    }
    assert(chars@.skip(n as int) =~= Seq::<char>::empty());
    assert(views(r@) + Seq::<Seq<char>>::empty() =~= views(r@));
    r
}

/// Whether `a` comes before `b` in the order of their characters.
pub open spec fn before(a: Seq<char>, b: Seq<char>) -> bool
    decreases a.len(),
{
    if b.len() == 0 {
        false
    } else if a.len() == 0 {
        true
    } else if a[0] != b[0] {
        (a[0] as u32) < (b[0] as u32)
    } else {
        before(a.drop_first(), b.drop_first())
    }
}

/// Whether `a` comes before `b` in the order of their characters.
pub fn text_before(a: &str, b: &str) -> (r: bool)
    ensures
        r == before(a@, b@),
{
    let x = chars_of(a);
    let y = chars_of(b);
    let mut i: usize = 0;
    assert(x@.skip(0) =~= x@ && y@.skip(0) =~= y@);
    while i < x.len() && i < y.len() && x[i] == y[i]
        invariant
            i <= x@.len(),
            i <= y@.len(),
            x@ == a@,
            y@ == b@,
            before(a@, b@) == before(x@.skip(i as int), y@.skip(i as int)),
        decreases x@.len() - i,
    {
        assert(x@.skip(i as int).drop_first() =~= x@.skip(i + 1));
        assert(y@.skip(i as int).drop_first() =~= y@.skip(i + 1));
        i += 1;
    }
    if i >= y.len() {
        false
    } else if i >= x.len() {
        true
    } else {
        (x[i] as u32) < (y[i] as u32)
    }
}

/// Whether `texts` holds `text`.
pub open spec fn holds_text(texts: Seq<String>, text: Seq<char>) -> bool {
    exists|i: int| 0 <= i < texts.len() && #[trigger] texts[i]@ == text
}

/// Whether `texts` holds `text`.
pub fn contains(texts: &Vec<String>, text: &str) -> (r: bool)
    ensures
        r == holds_text(texts@, text@),
{
    let mut i: usize = 0;
    while i < texts.len()
        invariant
            0 <= i <= texts@.len(),
            forall|k: int| 0 <= k < i ==> #[trigger] texts@[k]@ != text@,
        decreases texts@.len() - i,
    {
        if same_text(texts[i].as_str(), text) {
            return true;
        }
        i += 1;
    }
    false
}

/// `head` and `tail` as one string.
pub fn text2(head: &str, tail: &str) -> (r: String)
    ensures
        r@ == head@ + tail@,
{
    let mut r = head.to_owned();
    r.append(tail);
    r
}

/// Three pieces as one string.
pub fn text3(a: &str, b: &str, c: &str) -> (r: String)
    ensures
        r@ == a@ + b@ + c@,
{
    let mut r = a.to_owned();
    r.append(b);
    r.append(c);
    r
}

/// Four pieces as one string.
pub fn text4(a: &str, b: &str, c: &str, d: &str) -> (r: String)
    ensures
        r@ == a@ + b@ + c@ + d@,
{
    let mut r = text3(a, b, c);
    r.append(d);
    r
}

/// The number of bytes that a character takes in UTF-8.
pub open spec fn char_bytes(c: char) -> nat {
    let code = c as u32;
    if code < 0x80 {
        1
    } else if code < 0x800 {
        2
    } else if code < 0x10000 {
        3
    } else {
        4
    }
}

/// The number of bytes that a text takes in UTF-8.
pub open spec fn byte_len(s: Seq<char>) -> nat {
    vstd::utf8::encode_utf8(s).len()
}

proof fn lemma_byte_len_push(s: Seq<char>, c: char)
    ensures
        byte_len(s.push(c)) == byte_len(s) + char_bytes(c),
    decreases s.len(),
{
    vstd::utf8::char_is_scalar(c);
    if s.len() == 0 {
        assert(s.push(c).drop_first() =~= s);
        assert(vstd::utf8::encode_utf8(s.push(c)) == vstd::utf8::encode_scalar(c as u32)
            + vstd::utf8::encode_utf8(s));
    } else {
        lemma_byte_len_push(s.drop_first(), c);
        assert(s.push(c).drop_first() =~= s.drop_first().push(c));
    }
}

proof fn lemma_byte_len_grows(s: Seq<char>, k: int)
    requires
        0 <= k <= s.len(),
    ensures
        byte_len(s.take(k)) <= byte_len(s),
    decreases s.len() - k,
{
    if k == s.len() {
        assert(s.take(k) =~= s);
    } else {
        assert(s.take(k + 1) =~= s.take(k).push(s[k]));
        lemma_byte_len_push(s.take(k), s[k]);
        lemma_byte_len_grows(s, k + 1);
    }
}

/// The number of bytes that a text takes in UTF-8.
pub fn bytes_in(s: &str) -> (r: usize)
    ensures
        r == byte_len(s@),
{
    s.as_bytes().len()
}

/// Whether `r` is the longest beginning of `s` that takes `max` bytes at most.
pub open spec fn is_byte_prefix(r: Seq<char>, s: Seq<char>, max: nat) -> bool {
    &&& r.len() <= s.len()
    &&& r == s.take(r.len() as int)
    &&& byte_len(r) <= max
    &&& r.len() < s.len() ==> byte_len(s.take(r.len() as int + 1)) > max
}

/// The longest beginning of a text that takes `max_bytes` bytes at most.
pub fn truncate_utf8(s: &str, max_bytes: usize) -> (r: String)
    ensures
        is_byte_prefix(r@, s@, max_bytes as nat),
{
    let chars = chars_of(s);
    let mut r = String::new();
    let mut used: usize = 0;
    let mut i: usize = 0;
    assert(r@ =~= s@.take(0));
    while i < chars.len()
        invariant
            0 <= i <= chars@.len(),
            chars@ == s@,
            r@ == s@.take(i as int),
            used == byte_len(r@),
            used <= max_bytes,
        decreases chars@.len() - i,
    {
        let code: u32 = chars[i] as u32;
        let width: usize = if code < 0x80 {
            1
        } else if code < 0x800 {
            2
        } else if code < 0x10000 {
            3
        } else {
            4
        };
        proof {
            lemma_byte_len_push(r@, chars@[i as int]);
            assert(s@.take(i + 1) =~= r@.push(chars@[i as int]));
        }
        if width > max_bytes - used {
            return r;
        }
        used = used + width;
        r.push(chars[i]);
        i += 1;
    }
    r
}

/// A text that is short enough is left whole.
pub proof fn law_short_texts_are_left_whole(r: Seq<char>, s: Seq<char>, max: nat)
    requires
        is_byte_prefix(r, s, max),
        byte_len(s) <= max,
    ensures
        r == s,
{
    if r.len() < s.len() {
        lemma_byte_len_grows(s, r.len() as int + 1);
    }
    assert(s.take(s.len() as int) =~= s);
}

/// What comes before a text that does not come after another comes before that other too.
pub proof fn lemma_before_chain(a: Seq<char>, b: Seq<char>, c: Seq<char>)
    requires
        before(a, b),
        !before(c, b),
    ensures
        before(a, c),
    decreases a.len(),
{
    assert(b.len() > 0);
    assert(c.len() > 0);
    if a.len() > 0 && a[0] == b[0] {
        if b[0] == c[0] {
            assert(before(a.drop_first(), b.drop_first()));
            assert(!before(c.drop_first(), b.drop_first()));
            lemma_before_chain(a.drop_first(), b.drop_first(), c.drop_first());
        } else {
            vstd::utf8::char_u32_cast(c[0], c[0] as u32);
            vstd::utf8::char_u32_cast(b[0], b[0] as u32);
        }
    }
}

/// No text comes both before and after another.
pub proof fn lemma_before_one_way(a: Seq<char>, b: Seq<char>)
    requires
        before(a, b),
    ensures
        !before(b, a),
    decreases a.len(),
{
    if a.len() > 0 && b.len() > 0 && a[0] == b[0] {
        lemma_before_one_way(a.drop_first(), b.drop_first());
    }
}

/// A string as its `Debug` form shows it: in quotes, and escaped.
pub uninterp spec fn debug_quoted(text: Seq<char>) -> Seq<char>;

/// The `Debug` form of a string slice, as `std::fmt` writes it. It depends on the string alone.
#[verifier::external_body]
pub(crate) fn debug_text(text: &str) -> (r: String)
    ensures
        r@ == debug_quoted(text@),
{
    format!("{text:?}")
}

/// Texts have one order: none comes before itself, of two that differ one comes before the other and
/// not the other way round, and what comes before a text comes before all that come after it.
pub proof fn law_texts_have_one_order(a: Seq<char>, b: Seq<char>, c: Seq<char>)
    ensures
        !before(a, a),
        a != b ==> (before(a, b) <==> !before(b, a)),
        before(a, b) && before(b, c) ==> before(a, c),
    decreases a.len() + b.len() + c.len(),
{
    if a.len() > 0 {
        law_texts_have_one_order(a.drop_first(), Seq::empty(), Seq::empty());
    }
    if a.len() > 0 && b.len() > 0 && a[0] != b[0] {
        vstd::utf8::char_u32_cast(a[0], a[0] as u32);
        vstd::utf8::char_u32_cast(b[0], b[0] as u32);
    }
    if a.len() > 0 && b.len() > 0 && a[0] == b[0] {
        let tail = if c.len() > 0 {
            c.drop_first()
        } else {
            c
        };
        law_texts_have_one_order(a.drop_first(), b.drop_first(), tail);
        if a.drop_first() == b.drop_first() {
            assert(a =~= seq![a[0]] + a.drop_first());
            assert(b =~= seq![b[0]] + b.drop_first());
        }
    }
    if a.len() == 0 && b.len() == 0 {
        assert(a =~= b);
    }
    if a.len() > 0 && b.len() == 0 {
        assert(before(b, a));
    }
}

/// The first character in which two texts differ decides which comes first, and a text comes before all
/// that begin with it.
pub proof fn law_the_first_difference_decides(
    start: Seq<char>,
    x: char,
    y: char,
    a: Seq<char>,
    b: Seq<char>,
)
    requires
        (x as u32) < (y as u32),
    ensures
        before(start + seq![x] + a, start + seq![y] + b),
        before(start, start + seq![x] + a),
    decreases start.len(),
{
    let left = start + seq![x] + a;
    let right = start + seq![y] + b;
    if start.len() > 0 {
        let rest = start.drop_first();
        law_the_first_difference_decides(rest, x, y, a, b);
        assert(left.drop_first() =~= rest + seq![x] + a);
        assert(right.drop_first() =~= rest + seq![y] + b);
    }
}

/// A trimmed text is the text between the first and the last character that is no white space: what is
/// left out on either side is white space, and what is kept neither begins nor ends with it.
pub proof fn law_trimming_leaves_out_white_space(s: Seq<char>) -> (r: (int, int))
    ensures
        ({
            let (from, to) = r;
            &&& 0 <= from <= to <= s.len()
            &&& trim(s) == s.subrange(from, to)
            &&& forall|i: int| 0 <= i < from ==> is_white(#[trigger] s[i])
            &&& forall|i: int| to <= i < s.len() ==> is_white(#[trigger] s[i])
            &&& from < to ==> !is_white(s[from]) && !is_white(s[to - 1])
        }),
{
    let from = lemma_trim_start(s);
    let left = trim_start(s);
    let kept = lemma_trim_end(left);
    let to = from + kept;
    assert(left =~= s.skip(from));
    assert(trim(s) =~= s.subrange(from, to));
    assert forall|i: int| to <= i < s.len() implies is_white(#[trigger] s[i]) by {
        assert(left[i - from] == s[i]);
    }
    (from, to)
}

proof fn lemma_trim_start(s: Seq<char>) -> (from: int)
    ensures
        0 <= from <= s.len(),
        trim_start(s) == s.skip(from),
        forall|i: int| 0 <= i < from ==> is_white(#[trigger] s[i]),
        from < s.len() ==> !is_white(s[from]),
    decreases s.len(),
{
    if s.len() > 0 && is_white(s[0]) {
        let rest = s.drop_first();
        let inner = lemma_trim_start(rest);
        assert(rest.skip(inner) =~= s.skip(inner + 1));
        assert forall|i: int| 0 <= i < inner + 1 implies is_white(#[trigger] s[i]) by {
            if i > 0 {
                assert(rest[i - 1] == s[i]);
            }
        }
        inner + 1
    } else {
        assert(s.skip(0) =~= s);
        0
    }
}

proof fn lemma_trim_end(s: Seq<char>) -> (to: int)
    ensures
        0 <= to <= s.len(),
        trim_end(s) == s.take(to),
        forall|i: int| to <= i < s.len() ==> is_white(#[trigger] s[i]),
        to > 0 ==> !is_white(s[to - 1]),
    decreases s.len(),
{
    if s.len() > 0 && is_white(s.last()) {
        let rest = s.drop_last();
        let inner = lemma_trim_end(rest);
        assert(rest.take(inner) =~= s.take(inner));
        assert forall|i: int| inner <= i < s.len() implies is_white(#[trigger] s[i]) by {
            if i < rest.len() {
                assert(rest[i] == s[i]);
            }
        }
        inner
    } else {
        assert(s.take(s.len() as int) =~= s);
        s.len() as int
    }
}

/// Texts are joined in their order, with the separator between each two and nowhere else.
pub proof fn law_joined_texts_stand_in_order(
    parts: Seq<Seq<char>>,
    part: Seq<char>,
    separator: Seq<char>,
)
    ensures
        joined(Seq::empty(), separator) == Seq::<char>::empty(),
        joined(seq![part], separator) == part,
        parts.len() > 0 ==> joined(parts.push(part), separator) == joined(parts, separator)
            + separator + part,
{
    assert(parts.push(part).drop_last() =~= parts);
}

/// A text is cut behind each line feed, and nowhere else: a line with its feed is one piece, and what
/// follows is cut in the same way.
pub proof fn law_pieces_end_with_their_feed(line: Seq<char>, rest: Seq<char>)
    requires
        forall|i: int| 0 <= i < line.len() ==> (#[trigger] line[i]) != '\n',
    ensures
        line_pieces(line + seq!['\n'] + rest) == seq![line + seq!['\n']] + line_pieces(rest),
        line.len() > 0 ==> line_pieces(line) == seq![line],
        line_pieces(Seq::empty()) == Seq::<Seq<char>>::empty(),
{
    let whole = line + seq!['\n'] + rest;
    lemma_first_index(whole, '\n', line.len() as int);
    assert(whole.take(line.len() as int + 1) =~= line + seq!['\n']);
    assert(whole.skip(line.len() as int + 1) =~= rest);
    lemma_first_index(line, '\n', line.len() as int);
}

/// The lines of a text are what stands before each line feed, without a carriage return at its end, and
/// what stands behind the last, if anything does.
pub proof fn law_lines_end_before_their_feed(line: Seq<char>, rest: Seq<char>)
    requires
        forall|i: int| 0 <= i < line.len() ==> (#[trigger] line[i]) != '\n',
    ensures
        line.len() == 0 || line.last() != '\r' ==> lines_of(line + seq!['\n'] + rest) == seq![line]
            + lines_of(rest),
        lines_of(line + seq!['\r', '\n'] + rest) == seq![line] + lines_of(rest),
        line.len() > 0 ==> lines_of(line) == seq![line],
        lines_of(Seq::empty()) == Seq::<Seq<char>>::empty(),
{
    let whole = line + seq!['\n'] + rest;
    lemma_first_index(whole, '\n', line.len() as int);
    assert(whole.take(line.len() as int) =~= line);
    assert(whole.skip(line.len() as int + 1) =~= rest);
    let other = line + seq!['\r', '\n'] + rest;
    lemma_first_index(other, '\n', line.len() as int + 1);
    assert(other.take(line.len() as int + 1) =~= line.push('\r'));
    assert(line.push('\r').drop_last() =~= line);
    assert(other.skip(line.len() as int + 2) =~= rest);
    lemma_first_index(line, '\n', line.len() as int);
}

/// A text that is short enough stays as it is; of a longer one the first characters are kept, and the mark
/// stands behind them.
pub proof fn law_only_long_texts_are_cut(s: Seq<char>, max: nat, mark: Seq<char>)
    ensures
        s.len() <= max ==> clipped(s, max, mark) == s && first_chars(s, max) == s,
        s.len() > max ==> {
            let r = clipped(s, max, mark);
            &&& r.len() == max + mark.len()
            &&& r.take(max as int) == s.take(max as int)
            &&& r.skip(max as int) == mark
            &&& first_chars(s, max) == s.take(max as int)
        },
{
    if s.len() > max {
        let r = clipped(s, max, mark);
        assert(r.take(max as int) =~= s.take(max as int));
        assert(r.skip(max as int) =~= mark);
    }
}

/// A letter of ASCII has its other case thirty-two places away; all else stays as it is.
pub proof fn law_cases_differ_by_their_place(c: char)
    ensures
        65 <= c as u32 <= 90 ==> lower(c) as u32 == c as u32 + 32 && upper(c) == c,
        97 <= c as u32 <= 122 ==> upper(c) as u32 == c as u32 - 32 && lower(c) == c,
        !(65 <= c as u32 <= 90) && !(97 <= c as u32 <= 122) ==> lower(c) == c && upper(c) == c,
{
}

} // verus!
