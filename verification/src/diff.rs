//! The difference between two texts, line by line, as an approver sees it.
use crate::text;
use vstd::prelude::*;

verus! {

/// The most characters that a difference shows.
pub const DIFF_PREVIEW_CHARS: usize = 16384;

/// What stands under a difference that was cut.
pub const DIFF_TRUNCATED_MARKER: &'static str = "... diff truncated";

/// The lines that are shown before and after what has changed.
pub const DIFF_CONTEXT: usize = 3;

/// The number of lines that two lists begin with alike.
pub open spec fn common_start(a: Seq<Seq<char>>, b: Seq<Seq<char>>) -> nat
    decreases a.len(),
{
    if a.len() > 0 && b.len() > 0 && a[0] == b[0] {
        1 + common_start(a.drop_first(), b.drop_first())
    } else {
        0
    }
}

/// The number of lines that two lists end with alike.
pub open spec fn common_end(a: Seq<Seq<char>>, b: Seq<Seq<char>>) -> nat
    decreases a.len(),
{
    if a.len() > 0 && b.len() > 0 && a.last() == b.last() {
        1 + common_end(a.drop_last(), b.drop_last())
    } else {
        0
    }
}

/// Lines, each marked as one that stays.
pub open spec fn kept_lines(lines: Seq<Seq<char>>) -> Seq<(char, Seq<char>)> {
    Seq::new(lines.len(), |i: int| (' ', lines[i]))
}

/// The lines of two lists, one beside the other: a pair of the same is one line that stays, and
/// else the first goes and the second comes.
pub open spec fn changed_lines(a: Seq<Seq<char>>, b: Seq<Seq<char>>) -> Seq<(char, Seq<char>)>
    decreases a.len() + b.len(),
{
    if a.len() > 0 && b.len() > 0 {
        (if a[0] == b[0] {
            seq![(' ', a[0])]
        } else {
            seq![('-', a[0]), ('+', b[0])]
        }) + changed_lines(a.drop_first(), b.drop_first())
    } else if a.len() > 0 {
        seq![('-', a[0])] + changed_lines(a.drop_first(), b)
    } else if b.len() > 0 {
        seq![('+', b[0])] + changed_lines(a, b.drop_first())
    } else {
        Seq::empty()
    }
}

/// The lines of the first list among marked lines: those that stay and those that go.
pub open spec fn old_side(lines: Seq<(char, Seq<char>)>) -> Seq<Seq<char>>
    decreases lines.len(),
{
    if lines.len() == 0 {
        Seq::empty()
    } else if lines[0].0 == '+' {
        old_side(lines.drop_first())
    } else {
        seq![lines[0].1] + old_side(lines.drop_first())
    }
}

/// The lines of the second list among marked lines: those that stay and those that come.
pub open spec fn new_side(lines: Seq<(char, Seq<char>)>) -> Seq<Seq<char>>
    decreases lines.len(),
{
    if lines.len() == 0 {
        Seq::empty()
    } else if lines[0].0 == '-' {
        new_side(lines.drop_first())
    } else {
        seq![lines[0].1] + new_side(lines.drop_first())
    }
}

/// The changed lines tell both lists whole.
pub proof fn law_changes_tell_both_sides(a: Seq<Seq<char>>, b: Seq<Seq<char>>)
    ensures
        old_side(changed_lines(a, b)) == a,
        new_side(changed_lines(a, b)) == b,
    decreases a.len() + b.len(),
{
    reveal_with_fuel(old_side, 3);
    reveal_with_fuel(new_side, 3);
    let lines = changed_lines(a, b);
    if a.len() > 0 && b.len() > 0 {
        let rest = changed_lines(a.drop_first(), b.drop_first());
        law_changes_tell_both_sides(a.drop_first(), b.drop_first());
        if a[0] == b[0] {
            assert(lines.drop_first() =~= rest);
        } else {
            assert(lines.drop_first().drop_first() =~= rest);
            assert(lines[0] == ('-', a[0]));
            assert(lines.drop_first()[0] == ('+', b[0]));
        }
        assert(seq![a[0]] + a.drop_first() =~= a);
        assert(seq![b[0]] + b.drop_first() =~= b);
    } else if a.len() > 0 {
        law_changes_tell_both_sides(a.drop_first(), b);
        assert(lines.drop_first() =~= changed_lines(a.drop_first(), b));
        assert(seq![a[0]] + a.drop_first() =~= a);
    } else if b.len() > 0 {
        law_changes_tell_both_sides(a, b.drop_first());
        assert(lines.drop_first() =~= changed_lines(a, b.drop_first()));
        assert(seq![b[0]] + b.drop_first() =~= b);
    } else {
        assert(a =~= Seq::empty());
        assert(b =~= Seq::empty());
    }
}

/// A marked line as it is shown; a line without an end gets one.
pub open spec fn marked_text(line: (char, Seq<char>)) -> Seq<char> {
    seq![line.0] + line.1 + if line.1.len() > 0 && line.1.last() == '\n' {
        Seq::empty()
    } else {
        seq!['\n']
    }
}

/// Marked lines as they are shown.
pub open spec fn marked_texts(lines: Seq<(char, Seq<char>)>) -> Seq<char>
    decreases lines.len(),
{
    if lines.len() == 0 {
        Seq::empty()
    } else {
        marked_texts(lines.drop_last()) + marked_text(lines.last())
    }
}

/// Where a stretch of lines starts, as it is shown.
pub open spec fn shown_start(start: nat, count: nat) -> nat {
    if count == 0 {
        start
    } else {
        start + 1
    }
}

/// The part of two lists that a difference shows: where it starts, where what has changed ends in
/// each, and where the part ends in each.
pub struct Hunk {
    pub start: nat,
    pub prefix: nat,
    pub old_changed_end: nat,
    pub new_changed_end: nat,
    pub old_end: nat,
    pub new_end: nat,
}

/// The part of two lists that a difference shows.
pub open spec fn hunk_of(old: Seq<Seq<char>>, new: Seq<Seq<char>>) -> Hunk {
    let prefix = common_start(old, new);
    let suffix = common_end(old.skip(prefix as int), new.skip(prefix as int));
    let old_changed_end = (old.len() - suffix) as nat;
    let new_changed_end = (new.len() - suffix) as nat;
    Hunk {
        start: if prefix >= DIFF_CONTEXT {
            (prefix - DIFF_CONTEXT) as nat
        } else {
            0
        },
        prefix,
        old_changed_end,
        new_changed_end,
        old_end: if old_changed_end + DIFF_CONTEXT <= old.len() {
            old_changed_end + DIFF_CONTEXT as nat
        } else {
            old.len()
        },
        new_end: if new_changed_end + DIFF_CONTEXT <= new.len() {
            new_changed_end + DIFF_CONTEXT as nat
        } else {
            new.len()
        },
    }
}

/// The lines that a difference shows.
pub open spec fn hunk_lines(old: Seq<Seq<char>>, new: Seq<Seq<char>>) -> Seq<(char, Seq<char>)> {
    let hunk = hunk_of(old, new);
    kept_lines(old.subrange(hunk.start as int, hunk.prefix as int)) + changed_lines(
        old.subrange(hunk.prefix as int, hunk.old_changed_end as int),
        new.subrange(hunk.prefix as int, hunk.new_changed_end as int),
    ) + kept_lines(old.subrange(hunk.old_changed_end as int, hunk.old_end as int))
}

proof fn lemma_common_start(a: Seq<Seq<char>>, b: Seq<Seq<char>>)
    ensures
        common_start(a, b) <= a.len(),
        common_start(a, b) <= b.len(),
        a.take(common_start(a, b) as int) == b.take(common_start(a, b) as int),
    decreases a.len(),
{
    if a.len() > 0 && b.len() > 0 && a[0] == b[0] {
        lemma_common_start(a.drop_first(), b.drop_first());
        let n = common_start(a.drop_first(), b.drop_first()) as int;
        assert forall|i: int| 0 <= i < n + 1 implies a[i] == b[i] by {
            if i > 0 {
                assert(a.drop_first().take(n)[i - 1] == b.drop_first().take(n)[i - 1]);
            }
        }
    }
    assert(a.take(common_start(a, b) as int) =~= b.take(common_start(a, b) as int));
}

proof fn lemma_common_end(a: Seq<Seq<char>>, b: Seq<Seq<char>>)
    ensures
        common_end(a, b) <= a.len(),
        common_end(a, b) <= b.len(),
        a.skip(a.len() - common_end(a, b)) == b.skip(b.len() - common_end(a, b)),
    decreases a.len(),
{
    if a.len() > 0 && b.len() > 0 && a.last() == b.last() {
        let x = a.drop_last();
        let y = b.drop_last();
        lemma_common_end(x, y);
        let n = common_end(x, y) as int;
        let tail = a.skip(a.len() - n - 1);
        let other = b.skip(b.len() - n - 1);
        assert forall|i: int| 0 <= i < n + 1 implies (#[trigger] tail[i]) == other[i] by {
            if i < n {
                assert(x.skip(x.len() - n)[i] == y.skip(y.len() - n)[i]);
            }
        }
        assert(tail =~= other);
    }
    assert(a.skip(a.len() - common_end(a, b)) =~= b.skip(b.len() - common_end(a, b)));
}

proof fn lemma_sides_of_kept(lines: Seq<Seq<char>>)
    ensures
        old_side(kept_lines(lines)) == lines,
        new_side(kept_lines(lines)) == lines,
    decreases lines.len(),
{
    if lines.len() > 0 {
        lemma_sides_of_kept(lines.drop_first());
        assert(kept_lines(lines).drop_first() =~= kept_lines(lines.drop_first()));
        assert(seq![lines[0]] + lines.drop_first() =~= lines);
    } else {
        assert(old_side(kept_lines(lines)) =~= lines);
        assert(new_side(kept_lines(lines)) =~= lines);
    }
}

proof fn lemma_sides_add(x: Seq<(char, Seq<char>)>, y: Seq<(char, Seq<char>)>)
    ensures
        old_side(x + y) == old_side(x) + old_side(y),
        new_side(x + y) == new_side(x) + new_side(y),
    decreases x.len(),
{
    if x.len() > 0 {
        lemma_sides_add(x.drop_first(), y);
        assert((x + y).drop_first() =~= x.drop_first() + y);
        assert(old_side(x + y) =~= old_side(x) + old_side(y));
        assert(new_side(x + y) =~= new_side(x) + new_side(y));
    } else {
        assert(x + y =~= y);
        assert(old_side(x + y) =~= old_side(x) + old_side(y));
        assert(new_side(x + y) =~= new_side(x) + new_side(y));
    }
}

/// A difference tells the part of both lists that it shows, whole; before it and behind it the lists
/// are the same.
pub proof fn law_differences_tell_both_sides(old: Seq<Seq<char>>, new: Seq<Seq<char>>)
    ensures
        ({
            let hunk = hunk_of(old, new);
            &&& hunk.start <= hunk.old_end <= old.len()
            &&& hunk.start <= hunk.new_end <= new.len()
            &&& old_side(hunk_lines(old, new)) == old.subrange(
                hunk.start as int,
                hunk.old_end as int,
            )
            &&& new_side(hunk_lines(old, new)) == new.subrange(
                hunk.start as int,
                hunk.new_end as int,
            )
            &&& old.take(hunk.start as int) == new.take(hunk.start as int)
            &&& old.skip(hunk.old_end as int) == new.skip(hunk.new_end as int)
        }),
{
    let hunk = hunk_of(old, new);
    let prefix = hunk.prefix as int;
    let a = old.skip(prefix);
    let b = new.skip(prefix);
    lemma_common_start(old, new);
    lemma_common_end(a, b);
    let suffix = common_end(a, b) as int;
    let before = old.subrange(hunk.start as int, prefix);
    let after = old.subrange(hunk.old_changed_end as int, hunk.old_end as int);
    let old_middle = old.subrange(prefix, hunk.old_changed_end as int);
    let new_middle = new.subrange(prefix, hunk.new_changed_end as int);
    let changed = changed_lines(old_middle, new_middle);
    lemma_sides_of_kept(before);
    lemma_sides_of_kept(after);
    law_changes_tell_both_sides(old_middle, new_middle);
    lemma_sides_add(kept_lines(before) + changed, kept_lines(after));
    lemma_sides_add(kept_lines(before), changed);
    assert forall|i: int| 0 <= i < prefix implies old[i] == new[i] by {
        assert(old.take(prefix)[i] == new.take(prefix)[i]);
    }
    let old_tail = old.skip(old.len() - suffix);
    let new_tail = new.skip(new.len() - suffix);
    assert(old_tail =~= a.skip(a.len() - suffix));
    assert(new_tail =~= b.skip(b.len() - suffix));
    assert(old.subrange(hunk.start as int, hunk.old_end as int) =~= before + old_middle + after);
    assert(before =~= new.subrange(hunk.start as int, prefix));
    let behind = new.subrange(hunk.new_changed_end as int, hunk.new_end as int);
    assert(after =~= behind) by {
        assert forall|i: int| 0 <= i < after.len() implies after[i] == behind[i] by {
            assert(old_tail[i] == new_tail[i]);
        }
    }
    assert(new.subrange(hunk.start as int, hunk.new_end as int) =~= before + new_middle + after);
    assert(old.take(hunk.start as int) =~= new.take(hunk.start as int));
    assert(old.skip(hunk.old_end as int) =~= new.skip(hunk.new_end as int)) by {
        let x = old.skip(hunk.old_end as int);
        let y = new.skip(hunk.new_end as int);
        assert forall|i: int| 0 <= i < x.len() implies x[i] == y[i] by {
            let k = hunk.old_end - (old.len() - suffix) + i;
            assert(old_tail[k] == new_tail[k]);
        }
    }
}

/// The first lines of a difference: the names of the two texts, and where the part stands in each.
pub open spec fn diff_head(path: Seq<char>, hunk: Hunk) -> Seq<char> {
    let old_count = (hunk.old_end - hunk.start) as nat;
    let new_count = (hunk.new_end - hunk.start) as nat;
    "--- a/"@ + path + "\n"@ + "+++ b/"@ + path + "\n"@ + "@@ -"@ + text::decimal(
        shown_start(hunk.start, old_count),
    ) + ","@ + text::decimal(old_count) + " +"@ + text::decimal(
        shown_start(hunk.start, new_count),
    ) + ","@ + text::decimal(new_count) + " @@\n"@
}

/// A whole difference.
pub open spec fn whole_diff(path: Seq<char>, current: Seq<char>, proposed: Seq<char>) -> Seq<char> {
    let old = text::line_pieces(current);
    let new = text::line_pieces(proposed);
    diff_head(path, hunk_of(old, new)) + marked_texts(hunk_lines(old, new))
}

/// A text of `max` characters at most; where it is cut, a line under it says so.
pub open spec fn cut(full: Seq<char>, max: nat) -> Seq<char> {
    if full.len() <= max {
        full
    } else {
        let head = full.take(max as int);
        head + (if head.len() > 0 && head.last() == '\n' {
            Seq::empty()
        } else {
            seq!['\n']
        }) + DIFF_TRUNCATED_MARKER@ + seq!['\n']
    }
}

/// The difference between two texts as it is shown: nothing where there is none.
pub open spec fn diff_text(
    path: Seq<char>,
    current: Seq<char>,
    proposed: Seq<char>,
    max: nat,
) -> Seq<char> {
    if current == proposed {
        Seq::empty()
    } else {
        cut(whole_diff(path, current, proposed), max)
    }
}

/// What is shown of a difference is bounded.
pub proof fn law_differences_are_bounded(
    path: Seq<char>,
    current: Seq<char>,
    proposed: Seq<char>,
    max: nat,
)
    ensures
        diff_text(path, current, proposed, max).len() <= max + DIFF_TRUNCATED_MARKER@.len() + 2,
{
}

/// A text that grows up to a number of characters.
struct DiffPreview {
    value: String,
    max_chars: usize,
    chars: usize,
    truncated: bool,
    full: Ghost<Seq<char>>,
}

impl DiffPreview {
    spec fn wf(&self) -> bool {
        &&& self.value@ == cut(self.full@, self.max_chars as nat)
        &&& self.truncated == (self.full@.len() > self.max_chars)
        &&& !self.truncated ==> self.chars == self.full@.len()
        &&& self.truncated ==> self.chars == self.max_chars
    }

    fn new(max_chars: usize) -> (r: DiffPreview)
        ensures
            r.wf(),
            r.full@ == Seq::<char>::empty(),
            r.max_chars == max_chars,
    {
        DiffPreview {
            value: String::new(),
            max_chars,
            chars: 0,
            truncated: false,
            full: Ghost(Seq::empty()),
        }
    }

    fn push(&mut self, content: &str)
        requires
            old(self).wf(),
        ensures
            final(self).wf(),
            final(self).max_chars == old(self).max_chars,
            final(self).full@ == old(self).full@ + content@,
    {
        let ghost before = self.full@;
        self.full = Ghost(before + content@);
        if self.truncated {
            assert((before + content@).take(self.max_chars as int) =~= before.take(
                self.max_chars as int,
            ));
            return;
        }
        let remaining: usize = self.max_chars - self.chars;
        let count: usize = content.unicode_len();
        if count <= remaining {
            self.value.append(content);
            self.chars = self.chars + count;
            return;
        }
        let head = text::head(content, remaining);
        self.value.append(head.as_str());
        self.chars = self.max_chars;
        self.truncated = true;
        let ghost shown = self.value@;
        proof {
            assert(shown =~= (before + content@).take(self.max_chars as int));
        }
        let ended = self.max_chars > 0 && self.value.as_str().get_char(self.max_chars - 1) == '\n';
        if !ended {
            self.value.push('\n');
        }
        self.value.append(DIFF_TRUNCATED_MARKER);
        self.value.push('\n');
        assert(self.value@ =~= cut(before + content@, self.max_chars as nat));
    }

    fn push_line(&mut self, prefix: char, line: &str)
        requires
            old(self).wf(),
        ensures
            final(self).wf(),
            final(self).max_chars == old(self).max_chars,
            final(self).full@ == old(self).full@ + marked_text((prefix, line@)),
    {
        let ghost before = self.full@;
        let mut mark = String::new();
        mark.push(prefix);
        assert(mark@ =~= seq![prefix]);
        self.push(mark.as_str());
        self.push(line);
        let len: usize = line.unicode_len();
        if !(len > 0 && line.get_char(len - 1) == '\n') {
            proof {
                reveal_strlit("\n");
                assert("\n"@ =~= seq!['\n']);
            }
            self.push("\n");
        }
        assert(self.full@ =~= before + marked_text((prefix, line@)));
    }
}

fn common_prefix(left: &Vec<String>, right: &Vec<String>) -> (r: usize)
    ensures
        r == common_start(text::views(left@), text::views(right@)),
        r <= left@.len(),
        r <= right@.len(),
{
    let ghost a = text::views(left@);
    let ghost b = text::views(right@);
    let mut count: usize = 0;
    assert(a.skip(0) =~= a);
    assert(b.skip(0) =~= b);
    while count < left.len() && count < right.len() && text::same_text(
        left[count].as_str(),
        right[count].as_str(),
    )
        invariant
            a == text::views(left@),
            b == text::views(right@),
            count <= left@.len(),
            count <= right@.len(),
            common_start(a, b) == count + common_start(a.skip(count as int), b.skip(count as int)),
        decreases left@.len() - count,
    {
        proof {
            assert(a.skip(count as int)[0] == left@[count as int]@);
            assert(b.skip(count as int)[0] == right@[count as int]@);
            assert(a.skip(count as int).drop_first() =~= a.skip(count + 1));
            assert(b.skip(count as int).drop_first() =~= b.skip(count + 1));
        }
        count += 1;
    }
    proof {
        if count < left@.len() && count < right@.len() {
            assert(a.skip(count as int)[0] == left@[count as int]@);
            assert(b.skip(count as int)[0] == right@[count as int]@);
        }
    }
    count
}

fn common_suffix(left: &Vec<String>, right: &Vec<String>, prefix: usize) -> (r: usize)
    requires
        prefix <= left@.len(),
        prefix <= right@.len(),
    ensures
        r == common_end(
            text::views(left@).skip(prefix as int),
            text::views(right@).skip(prefix as int),
        ),
        r + prefix <= left@.len(),
        r + prefix <= right@.len(),
{
    let ghost a = text::views(left@).skip(prefix as int);
    let ghost b = text::views(right@).skip(prefix as int);
    let n: usize = left.len() - prefix;
    let m: usize = right.len() - prefix;
    let mut count: usize = 0;
    assert(a.take(n as int) =~= a);
    assert(b.take(m as int) =~= b);
    while count < n && count < m && text::same_text(
        left[left.len() - count - 1].as_str(),
        right[right.len() - count - 1].as_str(),
    )
        invariant
            a == text::views(left@).skip(prefix as int),
            b == text::views(right@).skip(prefix as int),
            prefix <= left@.len(),
            prefix <= right@.len(),
            n == left@.len() - prefix,
            m == right@.len() - prefix,
            count <= n,
            count <= m,
            common_end(a, b) == count + common_end(a.take(n - count), b.take(m - count)),
        decreases n - count,
    {
        proof {
            assert(a.take(n - count).last() == left@[left@.len() - count - 1]@);
            assert(b.take(m - count).last() == right@[right@.len() - count - 1]@);
            assert(a.take(n - count).drop_last() =~= a.take(n - count - 1));
            assert(b.take(m - count).drop_last() =~= b.take(m - count - 1));
        }
        count += 1;
    }
    proof {
        if count < n && count < m {
            assert(a.take(n - count).last() == left@[left@.len() - count - 1]@);
            assert(b.take(m - count).last() == right@[right@.len() - count - 1]@);
        }
    }
    count
}

proof fn lemma_marked_texts_push(lines: Seq<(char, Seq<char>)>, line: (char, Seq<char>))
    ensures
        marked_texts(lines.push(line)) == marked_texts(lines) + marked_text(line),
{
    assert(lines.push(line).drop_last() =~= lines);
}

proof fn lemma_marked_texts_add(a: Seq<(char, Seq<char>)>, b: Seq<(char, Seq<char>)>)
    ensures
        marked_texts(a + b) == marked_texts(a) + marked_texts(b),
    decreases b.len(),
{
    if b.len() == 0 {
        assert(a + b =~= a);
        assert(marked_texts(a) + marked_texts(b) =~= marked_texts(a));
    } else {
        lemma_marked_texts_add(a, b.drop_last());
        assert((a + b).drop_last() =~= a + b.drop_last());
        assert(marked_texts(a + b) =~= marked_texts(a) + marked_texts(b));
    }
}

fn push_kept(diff: &mut DiffPreview, lines: &Vec<String>, from: usize, to: usize)
    requires
        old(diff).wf(),
        from <= to <= lines@.len(),
    ensures
        final(diff).wf(),
        final(diff).max_chars == old(diff).max_chars,
        final(diff).full@ == old(diff).full@ + marked_texts(
            kept_lines(text::views(lines@).subrange(from as int, to as int)),
        ),
{
    let ghost before = diff.full@;
    let ghost all = text::views(lines@);
    assert(kept_lines(all.subrange(from as int, from as int)) =~= Seq::empty());
    assert(before + marked_texts(Seq::empty()) =~= before);
    let mut i: usize = from;
    while i < to
        invariant
            from <= i <= to <= lines@.len(),
            all == text::views(lines@),
            diff.wf(),
            diff.max_chars == old(diff).max_chars,
            diff.full@ == before + marked_texts(
                kept_lines(all.subrange(from as int, i as int)),
            ),
        decreases to - i,
    {
        diff.push_line(' ', lines[i].as_str());
        proof {
            let shown = kept_lines(all.subrange(from as int, i as int));
            lemma_marked_texts_push(shown, (' ', all[i as int]));
            assert(kept_lines(all.subrange(from as int, i + 1)) =~= shown.push(
                (' ', all[i as int]),
            ));
            assert(diff.full@ =~= before + marked_texts(
                kept_lines(all.subrange(from as int, i + 1)),
            ));
        }
        i += 1;
    }
}

#[verifier::rlimit(50)]
#[verifier::spinoff_prover]
fn push_changed_lines(
    diff: &mut DiffPreview,
    current: &Vec<String>,
    proposed: &Vec<String>,
    from: usize,
    current_end: usize,
    proposed_end: usize,
)
    requires
        old(diff).wf(),
        from <= current_end <= current@.len(),
        from <= proposed_end <= proposed@.len(),
    ensures
        final(diff).wf(),
        final(diff).max_chars == old(diff).max_chars,
        final(diff).full@ == old(diff).full@ + marked_texts(
            changed_lines(
                text::views(current@).subrange(from as int, current_end as int),
                text::views(proposed@).subrange(from as int, proposed_end as int),
            ),
        ),
{
    let ghost before = diff.full@;
    let ghost a = text::views(current@).subrange(from as int, current_end as int);
    let ghost b = text::views(proposed@).subrange(from as int, proposed_end as int);
    let ghost total = changed_lines(a, b);
    let ghost mut done: Seq<(char, Seq<char>)> = Seq::empty();
    assert(a.skip(0) =~= a);
    assert(b.skip(0) =~= b);
    assert(done + total =~= total);
    assert(before + marked_texts(done) =~= before);
    let mut i: usize = from;
    let mut j: usize = from;
    while i < current_end || j < proposed_end
        invariant
            from <= i <= current_end <= current@.len(),
            from <= j <= proposed_end <= proposed@.len(),
            a == text::views(current@).subrange(from as int, current_end as int),
            b == text::views(proposed@).subrange(from as int, proposed_end as int),
            total == changed_lines(a, b),
            total == done + changed_lines(a.skip(i - from), b.skip(j - from)),
            diff.wf(),
            diff.max_chars == old(diff).max_chars,
            diff.full@ == before + marked_texts(done),
        decreases (current_end - i) + (proposed_end - j),
    {
        let ghost rest_a = a.skip(i - from);
        let ghost rest_b = b.skip(j - from);
        proof {
            if i < current_end {
                assert(rest_a[0] == current@[i as int]@);
                assert(rest_a.drop_first() =~= a.skip(i + 1 - from));
            }
            if j < proposed_end {
                assert(rest_b[0] == proposed@[j as int]@);
                assert(rest_b.drop_first() =~= b.skip(j + 1 - from));
            }
        }
        let ghost was = done;
        let ghost shown = diff.full@;
        if i < current_end && j < proposed_end {
            if text::same_text(current[i].as_str(), proposed[j].as_str()) {
                diff.push_line(' ', current[i].as_str());
                proof {
                    done = was.push((' ', rest_a[0]));
                    lemma_marked_texts_push(was, (' ', rest_a[0]));
                    assert(diff.full@ =~= before + marked_texts(done));
                    assert(total =~= done + changed_lines(
                        rest_a.drop_first(),
                        rest_b.drop_first(),
                    ));
                }
            } else {
                diff.push_line('-', current[i].as_str());
                diff.push_line('+', proposed[j].as_str());
                proof {
                    let half = was.push(('-', rest_a[0]));
                    done = half.push(('+', rest_b[0]));
                    lemma_marked_texts_push(was, ('-', rest_a[0]));
                    lemma_marked_texts_push(half, ('+', rest_b[0]));
                    assert(diff.full@ =~= before + marked_texts(done));
                    assert(total =~= done + changed_lines(
                        rest_a.drop_first(),
                        rest_b.drop_first(),
                    ));
                }
            }
            i += 1;
            j += 1;
        } else if i < current_end {
            diff.push_line('-', current[i].as_str());
            proof {
                done = was.push(('-', rest_a[0]));
                lemma_marked_texts_push(was, ('-', rest_a[0]));
                assert(diff.full@ =~= before + marked_texts(done));
                assert(total =~= done + changed_lines(rest_a.drop_first(), rest_b));
            }
            i += 1;
        } else {
            diff.push_line('+', proposed[j].as_str());
            proof {
                done = was.push(('+', rest_b[0]));
                lemma_marked_texts_push(was, ('+', rest_b[0]));
                assert(diff.full@ =~= before + marked_texts(done));
                assert(total =~= done + changed_lines(rest_a, rest_b.drop_first()));
            }
            j += 1;
        }
    }
    assert(changed_lines(a.skip(i - from), b.skip(j - from)) =~= Seq::empty());
    assert(done =~= total);
}

fn hunk_start(start: usize, count: usize) -> (r: usize)
    requires
        start + count <= usize::MAX,
    ensures
        r == shown_start(start as nat, count as nat),
{
    if count == 0 {
        start
    } else {
        start + 1
    }
}

fn head_text(path: &str, start: usize, old_count: usize, new_count: usize) -> (r: String)
    requires
        start + old_count <= usize::MAX,
        start + new_count <= usize::MAX,
    ensures
        r@ == "--- a/"@ + path@ + "\n"@ + "+++ b/"@ + path@ + "\n"@ + "@@ -"@ + text::decimal(
            shown_start(start as nat, old_count as nat),
        ) + ","@ + text::decimal(old_count as nat) + " +"@ + text::decimal(
            shown_start(start as nat, new_count as nat),
        ) + ","@ + text::decimal(new_count as nat) + " @@\n"@,
{
    let mut r = text::text3("--- a/", path, "\n");
    r.append("+++ b/");
    r.append(path);
    r.append("\n");
    r.append("@@ -");
    r.append(text::decimal_usize(hunk_start(start, old_count)).as_str());
    r.append(",");
    r.append(text::decimal_usize(old_count).as_str());
    r.append(" +");
    r.append(text::decimal_usize(hunk_start(start, new_count)).as_str());
    r.append(",");
    r.append(text::decimal_usize(new_count).as_str());
    r.append(" @@\n");
    r
}

struct HunkBounds {
    start: usize,
    prefix: usize,
    old_changed_end: usize,
    new_changed_end: usize,
    old_end: usize,
    new_end: usize,
}

impl HunkBounds {
    spec fn view(&self) -> Hunk {
        Hunk {
            start: self.start as nat,
            prefix: self.prefix as nat,
            old_changed_end: self.old_changed_end as nat,
            new_changed_end: self.new_changed_end as nat,
            old_end: self.old_end as nat,
            new_end: self.new_end as nat,
        }
    }

    spec fn within(&self, old_len: nat, new_len: nat) -> bool {
        &&& self.start <= self.prefix <= self.old_changed_end <= self.old_end <= old_len
        &&& self.prefix <= self.new_changed_end <= self.new_end <= new_len
    }
}

fn hunk_bounds(old_lines: &Vec<String>, new_lines: &Vec<String>) -> (r: HunkBounds)
    ensures
        r@ == hunk_of(text::views(old_lines@), text::views(new_lines@)),
        r.within(old_lines@.len(), new_lines@.len()),
{
    let prefix: usize = common_prefix(old_lines, new_lines);
    let suffix: usize = common_suffix(old_lines, new_lines, prefix);
    let old_changed_end: usize = old_lines.len() - suffix;
    let new_changed_end: usize = new_lines.len() - suffix;
    HunkBounds {
        start: if prefix >= DIFF_CONTEXT {
            prefix - DIFF_CONTEXT
        } else {
            0
        },
        prefix,
        old_changed_end,
        new_changed_end,
        old_end: if suffix >= DIFF_CONTEXT {
            old_changed_end + DIFF_CONTEXT
        } else {
            old_lines.len()
        },
        new_end: if suffix >= DIFF_CONTEXT {
            new_changed_end + DIFF_CONTEXT
        } else {
            new_lines.len()
        },
    }
}

fn push_hunk(
    diff: &mut DiffPreview,
    old_lines: &Vec<String>,
    new_lines: &Vec<String>,
    bounds: &HunkBounds,
)
    requires
        old(diff).wf(),
        bounds@ == hunk_of(text::views(old_lines@), text::views(new_lines@)),
        bounds.within(old_lines@.len(), new_lines@.len()),
    ensures
        final(diff).wf(),
        final(diff).max_chars == old(diff).max_chars,
        final(diff).full@ == old(diff).full@ + marked_texts(
            hunk_lines(text::views(old_lines@), text::views(new_lines@)),
        ),
{
    let ghost a = text::views(old_lines@);
    let ghost b = text::views(new_lines@);
    let ghost before = diff.full@;
    push_kept(diff, old_lines, bounds.start, bounds.prefix);
    push_changed_lines(
        diff,
        old_lines,
        new_lines,
        bounds.prefix,
        bounds.old_changed_end,
        bounds.new_changed_end,
    );
    push_kept(diff, old_lines, bounds.old_changed_end, bounds.old_end);
    proof {
        let first = kept_lines(a.subrange(bounds.start as int, bounds.prefix as int));
        let middle = changed_lines(
            a.subrange(bounds.prefix as int, bounds.old_changed_end as int),
            b.subrange(bounds.prefix as int, bounds.new_changed_end as int),
        );
        let last = kept_lines(a.subrange(bounds.old_changed_end as int, bounds.old_end as int));
        lemma_marked_texts_add(first, middle);
        lemma_marked_texts_add(first + middle, last);
        assert(hunk_lines(a, b) == first + middle + last);
        assert(diff.full@ =~= before + marked_texts(hunk_lines(a, b)));
    }
}

/// The difference between two texts as it is shown, `max_chars` characters of it at most; nothing
/// where there is none.
pub fn unified_diff(path: &str, current: &str, proposed: &str, max_chars: usize) -> (r: String)
    ensures
        r@ == diff_text(path@, current@, proposed@, max_chars as nat),
{
    if text::same_text(current, proposed) {
        let r = String::new();
        assert(r@ =~= Seq::empty());
        return r;
    }
    let old_lines = text::pieces(current);
    let new_lines = text::pieces(proposed);
    let bounds = hunk_bounds(&old_lines, &new_lines);
    let mut diff = DiffPreview::new(max_chars);
    let head = head_text(
        path,
        bounds.start,
        bounds.old_end - bounds.start,
        bounds.new_end - bounds.start,
    );
    diff.push(head.as_str());
    assert(diff.full@ =~= head@);
    push_hunk(&mut diff, &old_lines, &new_lines, &bounds);
    diff.value
}

/// Behind the lines that two lists begin with alike, one of them ends or they differ.
proof fn lemma_common_start_ends(a: Seq<Seq<char>>, b: Seq<Seq<char>>)
    ensures
        common_start(a, b) < a.len() && common_start(a, b) < b.len() ==> a[common_start(a, b) as int]
            != b[common_start(a, b) as int],
    decreases a.len(),
{
    if a.len() > 0 && b.len() > 0 && a[0] == b[0] {
        lemma_common_start_ends(a.drop_first(), b.drop_first());
    }
}

/// Before the lines that two lists end with alike, one of them begins or they differ.
proof fn lemma_common_end_begins(a: Seq<Seq<char>>, b: Seq<Seq<char>>)
    ensures
        common_end(a, b) < a.len() && common_end(a, b) < b.len() ==> a[a.len() - 1 - common_end(
            a,
            b,
        )] != b[b.len() - 1 - common_end(a, b)],
    decreases a.len(),
{
    if a.len() > 0 && b.len() > 0 && a.last() == b.last() {
        lemma_common_end_begins(a.drop_last(), b.drop_last());
    }
}

/// Two lists that differ in their first lines and in their last lines, or of which one is empty, are
/// told by lines of which neither the first nor the last stays.
proof fn lemma_changed_ends(a: Seq<Seq<char>>, b: Seq<Seq<char>>)
    requires
        a.len() > 0 || b.len() > 0,
        a.len() > 0 && b.len() > 0 ==> a.last() != b.last(),
    ensures
        changed_lines(a, b).len() > 0,
        changed_lines(a, b).last().0 != ' ',
        a.len() > 0 && b.len() > 0 && a[0] != b[0] ==> changed_lines(a, b)[0].0 != ' ',
        a.len() == 0 || b.len() == 0 ==> changed_lines(a, b)[0].0 != ' ',
    decreases a.len() + b.len(),
{
    let lines = changed_lines(a, b);
    if a.len() > 0 && b.len() > 0 {
        let x = a.drop_first();
        let y = b.drop_first();
        let head = if a[0] == b[0] {
            seq![(' ', a[0])]
        } else {
            seq![('-', a[0]), ('+', b[0])]
        };
        assert(lines =~= head + changed_lines(x, y));
        if x.len() > 0 || y.len() > 0 {
            if x.len() > 0 && y.len() > 0 {
                assert(x.last() == a.last() && y.last() == b.last());
            }
            lemma_changed_ends(x, y);
            assert(lines.last() == changed_lines(x, y).last());
        } else {
            assert(a[0] == a.last() && b[0] == b.last());
            assert(changed_lines(x, y) =~= Seq::empty());
            assert(lines =~= head);
        }
    } else if a.len() > 0 {
        let x = a.drop_first();
        assert(lines =~= seq![('-', a[0])] + changed_lines(x, b));
        if x.len() > 0 {
            lemma_changed_ends(x, b);
            assert(lines.last() == changed_lines(x, b).last());
        } else {
            assert(changed_lines(x, b) =~= Seq::empty());
        }
    } else {
        let y = b.drop_first();
        assert(lines =~= seq![('+', b[0])] + changed_lines(a, y));
        if y.len() > 0 {
            lemma_changed_ends(a, y);
            assert(lines.last() == changed_lines(a, y).last());
        } else {
            assert(changed_lines(a, y) =~= Seq::empty());
        }
    }
}

/// A difference between two lists shows a changed line, at most three lines that stay before the first
/// of them, and at most three behind the last: as many as there are where there are fewer than three,
/// so that the part then begins with the lists, or ends with them. The first changed line stands where
/// the lists first differ.
pub proof fn law_differences_have_little_context(old: Seq<Seq<char>>, new: Seq<Seq<char>>) -> (r: (
    int,
    int,
))
    requires
        old != new,
    ensures
        ({
            let lines = hunk_lines(old, new);
            let hunk = hunk_of(old, new);
            let (first, last) = r;
            &&& 0 <= first <= last < lines.len()
            &&& lines[first].0 != ' ' && lines[last].0 != ' '
            &&& forall|i: int| 0 <= i < first ==> (#[trigger] lines[i]).0 == ' '
            &&& forall|i: int| last < i < lines.len() ==> (#[trigger] lines[i]).0 == ' '
            &&& first <= 3
            &&& first < 3 ==> hunk.start == 0
            &&& lines.len() - 1 - last <= 3
            &&& lines.len() - 1 - last < 3 ==> hunk.old_end == old.len() && hunk.new_end
                == new.len()
            &&& forall|i: int| 0 <= i < hunk.start + first ==> #[trigger] old[i] == new[i]
            &&& hunk.start + first <= old.len() && hunk.start + first <= new.len()
            &&& hunk.start + first < old.len() && hunk.start + first < new.len() ==> old[hunk.start
                + first] != new[hunk.start + first]
        }),
{
    let lines = hunk_lines(old, new);
    let hunk = hunk_of(old, new);
    let prefix = hunk.prefix as int;
    let a = old.skip(prefix);
    let b = new.skip(prefix);
    lemma_common_start(old, new);
    lemma_common_start_ends(old, new);
    lemma_common_end(a, b);
    lemma_common_end_begins(a, b);
    let suffix = common_end(a, b) as int;
    let before = kept_lines(old.subrange(hunk.start as int, prefix));
    let after = kept_lines(old.subrange(hunk.old_changed_end as int, hunk.old_end as int));
    let old_middle = old.subrange(prefix, hunk.old_changed_end as int);
    let new_middle = new.subrange(prefix, hunk.new_changed_end as int);
    assert forall|i: int| 0 <= i < prefix implies #[trigger] old[i] == new[i] by {
        assert(old.take(prefix)[i] == new.take(prefix)[i]);
    }
    assert(old_middle.len() > 0 || new_middle.len() > 0) by {
        if old_middle.len() == 0 && new_middle.len() == 0 {
            assert(old.len() == new.len());
            assert forall|i: int| 0 <= i < old.len() implies old[i] == new[i] by {
                if i >= prefix {
                    assert(a.skip(a.len() - suffix)[i - prefix] == b.skip(b.len() - suffix)[i
                        - prefix]);
                }
            }
            assert(old =~= new);
        }
    }
    if old_middle.len() > 0 && new_middle.len() > 0 {
        assert(old_middle.last() == a[a.len() - 1 - suffix]);
        assert(new_middle.last() == b[b.len() - 1 - suffix]);
        assert(old_middle[0] == old[prefix] && new_middle[0] == new[prefix]);
    }
    lemma_changed_ends(old_middle, new_middle);
    let middle = changed_lines(old_middle, new_middle);
    let first = before.len() as int;
    let last = (before.len() + middle.len() - 1) as int;
    assert(lines =~= before + middle + after);
    assert(lines[first] == middle[0]);
    assert(lines[last] == middle.last());
    assert forall|i: int| 0 <= i < first implies (#[trigger] lines[i]).0 == ' ' by {
        assert(lines[i] == before[i]);
    }
    assert forall|i: int| last < i < lines.len() implies (#[trigger] lines[i]).0 == ' ' by {
        assert(lines[i] == after[i - last - 1]);
    }
    (first, last)
}

/// Lines stand side by side: those of two stretches of the same length are told before those of what
/// comes behind them. Two lines that are the same are one that stays; of two that differ the old one
/// goes and the new one comes; what only the old list has goes, and what only the new one has comes.
pub proof fn law_changes_stand_side_by_side(
    a: Seq<Seq<char>>,
    b: Seq<Seq<char>>,
    x: Seq<char>,
    y: Seq<char>,
    rest_a: Seq<Seq<char>>,
    rest_b: Seq<Seq<char>>,
)
    requires
        a.len() == b.len(),
    ensures
        changed_lines(a + rest_a, b + rest_b) == changed_lines(a, b) + changed_lines(rest_a, rest_b),
        changed_lines(seq![x], seq![x]) == seq![(' ', x)],
        x != y ==> changed_lines(seq![x], seq![y]) == seq![('-', x), ('+', y)],
        changed_lines(seq![x], Seq::empty()) == seq![('-', x)],
        changed_lines(Seq::empty(), seq![y]) == seq![('+', y)],
    decreases a.len(),
{
    reveal_with_fuel(changed_lines, 2);
    assert(seq![x].drop_first() =~= Seq::empty());
    assert(seq![y].drop_first() =~= Seq::empty());
    if a.len() > 0 {
        law_changes_stand_side_by_side(a.drop_first(), b.drop_first(), x, y, rest_a, rest_b);
        assert((a + rest_a).drop_first() =~= a.drop_first() + rest_a);
        assert((b + rest_b).drop_first() =~= b.drop_first() + rest_b);
        assert(changed_lines(a + rest_a, b + rest_b) =~= changed_lines(a, b) + changed_lines(
            rest_a,
            rest_b,
        ));
    } else {
        assert(a + rest_a =~= rest_a);
        assert(b + rest_b =~= rest_b);
        assert(changed_lines(a, b) =~= Seq::empty());
        assert(changed_lines(a + rest_a, b + rest_b) =~= changed_lines(a, b) + changed_lines(
            rest_a,
            rest_b,
        ));
    }
}

/// Each line of a difference is shown behind its mark, and ends; its own text stands between.
pub proof fn law_marked_lines_are_lines(line: (char, Seq<char>), lines: Seq<(char, Seq<char>)>)
    ensures
        ({
            let shown = marked_text(line);
            &&& shown[0] == line.0
            &&& shown.last() == '\n'
            &&& shown.skip(1) == line.1 || shown.skip(1) == line.1.push('\n')
            &&& line.1.len() > 0 && line.1.last() == '\n' ==> shown.len() == line.1.len() + 1
        }),
        marked_texts(lines.push(line)) == marked_texts(lines) + marked_text(line),
        marked_texts(Seq::empty()) == Seq::<char>::empty(),
{
    let shown = marked_text(line);
    lemma_marked_texts_push(lines, line);
    if line.1.len() > 0 && line.1.last() == '\n' {
        assert(shown =~= seq![line.0] + line.1);
        assert(shown.skip(1) =~= line.1);
    } else {
        assert(shown =~= seq![line.0] + line.1 + seq!['\n']);
        assert(shown.skip(1) =~= line.1.push('\n'));
    }
}

/// The head of a difference names the text on both sides, and says for each side the number of its first
/// line that is shown (or of the line before, where none is shown) and how many of its lines are shown.
pub proof fn law_heads_count_the_lines(path: Seq<char>, old: Seq<Seq<char>>, new: Seq<Seq<char>>)
    ensures
        ({
            let hunk = hunk_of(old, new);
            let gone = old_side(hunk_lines(old, new)).len();
            let come = new_side(hunk_lines(old, new)).len();
            let old_first = if gone == 0 {
                hunk.start
            } else {
                hunk.start + 1
            };
            let new_first = if come == 0 {
                hunk.start
            } else {
                hunk.start + 1
            };
            diff_head(path, hunk) == "--- a/"@ + path + "\n"@ + "+++ b/"@ + path + "\n"@ + "@@ -"@
                + text::decimal(old_first) + ","@ + text::decimal(gone) + " +"@ + text::decimal(
                new_first,
            ) + ","@ + text::decimal(come) + " @@\n"@
        }),
{
    law_differences_tell_both_sides(old, new);
}

/// Nothing is shown exactly where there is no difference. One that is not too long is shown whole; of one
/// that is, as much as may be shown, and then a line that says that it was cut.
pub proof fn law_differences_are_shown(
    path: Seq<char>,
    current: Seq<char>,
    proposed: Seq<char>,
    max: nat,
)
    ensures
        ({
            let r = diff_text(path, current, proposed, max);
            let whole = diff_head(
                path,
                hunk_of(text::line_pieces(current), text::line_pieces(proposed)),
            ) + marked_texts(hunk_lines(text::line_pieces(current), text::line_pieces(proposed)));
            &&& r.len() == 0 <==> current == proposed
            &&& current != proposed && whole.len() <= max ==> r == whole
            &&& current != proposed && whole.len() > max ==> r.take(max as int) == whole.take(
                max as int,
            ) && r.last() == '\n' && r.subrange(r.len() - 19, r.len() - 1)
                == "... diff truncated"@
        }),
{
    reveal_strlit("... diff truncated");
    reveal_strlit("--- a/");
    let r = diff_text(path, current, proposed, max);
    let whole = whole_diff(path, current, proposed);
    if current != proposed && whole.len() > max {
        assert(r.take(max as int) =~= whole.take(max as int));
        assert(r.subrange(r.len() - 19, r.len() - 1) =~= "... diff truncated"@);
    }
}

} // verus!
