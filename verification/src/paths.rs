//! Paths as text, the identity of a workspace, and where its files are kept.
use crate::error::{AppError, AppResult};
use crate::text;
use vstd::prelude::*;

verus! {

/// Whether a path starts at the root.
pub open spec fn is_absolute(path: Seq<char>) -> bool {
    path.len() > 0 && path[0] == '/'
}

/// `path` taken from `base`: itself where it is absolute.
pub open spec fn joined_path(base: Seq<char>, path: Seq<char>) -> Seq<char> {
    if is_absolute(path) || base.len() == 0 {
        path
    } else if base.last() == '/' {
        base + path
    } else {
        base + "/"@ + path
    }
}

/// Whether a path starts at the root.
pub fn absolute(path: &str) -> (r: bool)
    ensures
        r == is_absolute(path@),
{
    if path.is_empty() {
        false
    } else {
        path.get_char(0) == '/'
    }
}

/// `path` taken from `base`: itself where it is absolute.
pub fn join_path(base: &str, path: &str) -> (r: String)
    ensures
        r@ == joined_path(base@, path@),
{
    if absolute(path) || base.is_empty() {
        return path.to_owned();
    }
    let n: usize = base.unicode_len();
    if base.get_char(n - 1) == '/' {
        text::text2(base, path)
    } else {
        text::text3(base, "/", path)
    }
}

/// The pieces of a text between slashes.
pub open spec fn slash_pieces(s: Seq<char>) -> Seq<Seq<char>>
    decreases s.len(),
{
    let k = text::first_index(s, '/');
    if k >= s.len() {
        seq![s]
    } else {
        seq![s.take(k as int)] + slash_pieces(s.skip((k + 1) as int))
    }
}

/// Whether a piece of a path leads anywhere: it is neither empty nor `.`.
pub open spec fn is_component(piece: Seq<char>) -> bool {
    piece.len() > 0 && piece != "."@
}

/// The components of a path: its pieces between slashes without the empty ones and without `.`.
pub open spec fn components_of(path: Seq<char>) -> Seq<Seq<char>> {
    slash_pieces(path).filter(|piece: Seq<char>| is_component(piece))
}

/// The components of a path.
pub fn components(path: &str) -> (r: Vec<String>)
    ensures
        text::views(r@) == components_of(path@),
{
    let ghost keep = |piece: Seq<char>| is_component(piece);
    let chars = text::chars_of(path);
    let n: usize = chars.len();
    let mut r: Vec<String> = Vec::new();
    let mut start: usize = 0;
    let mut more = true;
    let ghost mut seen: Seq<Seq<char>> = Seq::empty();
    assert(chars@.skip(0) =~= chars@);
    assert(seen + slash_pieces(path@) =~= slash_pieces(path@));
    assert(text::views(r@) =~= seen.filter(keep));
    while more
        invariant
            0 <= start <= n == chars@.len(),
            chars@ == path@,
            keep == (|piece: Seq<char>| is_component(piece)),
            more ==> seen + slash_pieces(chars@.skip(start as int)) == slash_pieces(path@),
            !more ==> seen == slash_pieces(path@),
            text::views(r@) == seen.filter(keep),
        decreases n - start + (if more { 1int } else { 0int }),
    {
        let ghost rest = chars@.skip(start as int);
        let mut k: usize = start;
        while k < n && chars[k] != '/'
            invariant
                start <= k <= n == chars@.len(),
                rest == chars@.skip(start as int),
                forall|i: int| start <= i < k ==> chars@[i] != '/',
            decreases n - k,
        {
            k += 1;
        }
        proof {
            text::lemma_first_index(rest, '/', k - start);
        }
        let piece = text::text_between(&chars, start, k);
        let ghost before = seen;
        let ghost kept = text::views(r@);
        proof {
            seen = seen.push(piece@);
            assert(seen.drop_last() =~= before);
            reveal(Seq::filter);
            assert(seen.filter(keep) == if keep(piece@) {
                before.filter(keep).push(piece@)
            } else {
                before.filter(keep)
            });
            if k >= n {
                assert(piece@ =~= rest);
                assert(before + seq![rest] =~= seen);
            } else {
                assert(piece@ =~= rest.take(k - start));
                assert(rest.skip(k - start + 1) =~= chars@.skip(k + 1));
                assert(before + (seq![piece@] + slash_pieces(chars@.skip(k + 1))) =~= seen
                    + slash_pieces(chars@.skip(k + 1)));
            }
        }
        if !piece.as_str().is_empty() && !text::same_text(piece.as_str(), ".") {
            r.push(piece);
            assert(text::views(r@) =~= kept.push(piece@));
        }
        if k >= n {
            more = false;
        } else {
            start = k + 1;
        }
    }
    r
}

/// The last component of a path, where it has one and that is not `..`.
pub open spec fn file_name_of(path: Seq<char>) -> Option<Seq<char>> {
    let parts = components_of(path);
    if parts.len() == 0 || parts.last() == ".."@ {
        None
    } else {
        Some(parts.last())
    }
}

/// Whether `path` is `root` or lies in it.
pub open spec fn lies_in(path: Seq<char>, root: Seq<char>) -> bool {
    let parts = components_of(path);
    let outer = components_of(root);
    is_absolute(path) == is_absolute(root) && outer.len() <= parts.len()
        && parts.take(outer.len() as int) == outer
}

/// Whether `path` is `root` or lies in it.
pub fn path_lies_in(path: &str, root: &str) -> (r: bool)
    ensures
        r == lies_in(path@, root@),
{
    if absolute(path) != absolute(root) {
        return false;
    }
    let parts = components(path);
    let outer = components(root);
    if outer.len() > parts.len() {
        return false;
    }
    let ghost all = components_of(path@);
    let ghost first = components_of(root@);
    let mut i: usize = 0;
    while i < outer.len()
        invariant
            0 <= i <= outer@.len(),
            outer@.len() <= parts@.len(),
            text::views(parts@) == all,
            text::views(outer@) == first,
            all == components_of(path@),
            first == components_of(root@),
            forall|j: int| 0 <= j < i ==> all[j] == first[j],
        decreases outer@.len() - i,
    {
        assert(all[i as int] == parts@[i as int]@ && first[i as int] == outer@[i as int]@);
        if !text::same_text(parts[i].as_str(), outer[i].as_str()) {
            assert(all.take(first.len() as int)[i as int] == all[i as int]);
            return false;
        }
        i += 1;
    }
    assert(all.take(first.len() as int) =~= first);
    true
}

/// Whether a path is absolute or climbs out through `..`.
pub open spec fn escapes(path: Seq<char>) -> bool {
    is_absolute(path) || components_of(path).contains(".."@)
}

/// Whether a path is absolute or climbs out through `..`.
pub fn path_escapes(path: &str) -> (r: bool)
    ensures
        r == escapes(path@),
{
    if absolute(path) {
        return true;
    }
    let parts = components(path);
    let found = text::contains(&parts, "..");
    proof {
        let views = text::views(parts@);
        if found {
            let i = choose|i: int| 0 <= i < parts@.len() && (#[trigger] parts@[i])@ == ".."@;
            assert(views[i] == ".."@);
        } else if views.contains(".."@) {
            let i = choose|i: int| 0 <= i < views.len() && views[i] == ".."@;
            assert(parts@[i]@ == ".."@);
        }
    }
    found
}

/// Whether a character is an ASCII letter or digit.
pub open spec fn is_alphanumeric(c: char) -> bool {
    ||| 48 <= c as u32 <= 57
    ||| 65 <= c as u32 <= 90
    ||| 97 <= c as u32 <= 122
}

fn alphanumeric(c: char) -> (r: bool)
    ensures
        r == is_alphanumeric(c),
{
    let n: u32 = c as u32;
    (48 <= n && n <= 57) || (65 <= n && n <= 90) || (97 <= n && n <= 122)
}

/// The longest runs of ASCII letters and digits, in order.
pub open spec fn runs(s: Seq<char>) -> Seq<Seq<char>>
    decreases s.len(),
{
    if s.len() == 0 {
        Seq::empty()
    } else {
        let before = runs(s.drop_last());
        if !is_alphanumeric(s.last()) {
            before
        } else if s.len() > 1 && is_alphanumeric(s[s.len() - 2]) {
            before.drop_last().push(before.last().push(s.last()))
        } else {
            before.push(seq![s.last()])
        }
    }
}

/// The runs of letters and digits with dashes between them; a name of its own where there are none.
pub open spec fn slug_text(s: Seq<char>) -> Seq<char> {
    if runs(s).len() == 0 {
        "workspace"@
    } else {
        text::joined(runs(s), "-"@)
    }
}

/// Makes a slug out of characters that are in lower case already.
pub fn slug_of(chars: &Vec<char>) -> (r: String)
    ensures
        r@ == slug_text(chars@),
{
    let mut parts: Vec<String> = Vec::new();
    let mut i: usize = 0;
    assert(chars@.take(0) =~= Seq::<char>::empty());
    assert(text::views(parts@) =~= Seq::<Seq<char>>::empty());
    while i < chars.len()
        invariant
            0 <= i <= chars@.len(),
            text::views(parts@) == runs(chars@.take(i as int)),
            i > 0 && is_alphanumeric(chars@[i - 1]) ==> parts@.len() > 0,
        decreases chars@.len() - i,
    {
        let c = chars[i];
        let ghost before = text::views(parts@);
        proof {
            assert(chars@.take(i + 1).drop_last() =~= chars@.take(i as int));
            assert(chars@.take(i + 1).last() == c);
            if i > 0 {
                assert(chars@.take(i + 1)[i - 1] == chars@[i - 1]);
            }
        }
        if alphanumeric(c) {
            if i > 0 && alphanumeric(chars[i - 1]) {
                let last = parts.pop();
                if let Some(run) = last {
                    let mut run = run;
                    let ghost old_run = run@;
                    run.push(c);
                    parts.push(run);
                    assert(text::views(parts@) =~= before.drop_last().push(old_run.push(c)));
                }
            } else {
                let mut run = String::new();
                run.push(c);
                parts.push(run);
                assert(run@ =~= seq![c]);
                assert(text::views(parts@) =~= before.push(seq![c]));
            }
        }
        i += 1;
    }
    assert(chars@.take(chars@.len() as int) =~= chars@);
    if parts.len() == 0 {
        "workspace".to_owned()
    } else {
        text::join(&parts, "-")
    }
}

/// The lower-case form of a character beyond ASCII, as Unicode gives it: one character or more.
pub uninterp spec fn unicode_lowercased(c: char) -> Seq<char>;

/// The lower-case form of a character: one character or more.
pub open spec fn lowercased(c: char) -> Seq<char> {
    if (c as u32) < 128 {
        seq![text::lower(c)]
    } else {
        unicode_lowercased(c)
    }
}

/// Whether a character is a capital letter of ASCII.
pub open spec fn is_capital(c: char) -> bool {
    65 <= c as u32 <= 90
}

/// `char::to_lowercase` of the standard library. A letter of ASCII becomes its small letter, and
/// whatever else is in ASCII stays; no capital letter of ASCII is left of any character.
#[verifier::external_body]
fn lowercase(c: char) -> (r: Vec<char>)
    ensures
        r@ == if (c as u32) < 128 {
            seq![text::lower(c)]
        } else {
            unicode_lowercased(c)
        },
        forall|i: int| 0 <= i < r@.len() ==> !is_capital(#[trigger] r@[i]),
{
    c.to_lowercase().collect()
}

/// A text in lower case, character by character.
pub open spec fn lowercased_text(s: Seq<char>) -> Seq<char>
    decreases s.len(),
{
    if s.len() == 0 {
        Seq::empty()
    } else {
        lowercased_text(s.drop_last()) + lowercased(s.last())
    }
}

/// Whether a text is made of small letters, digits and single dashes, with no dash at either end.
pub open spec fn is_slug(s: Seq<char>) -> bool {
    &&& s.len() > 0
    &&& s[0] != '-'
    &&& s.last() != '-'
    &&& forall|i: int|
        0 <= i < s.len() ==> (is_alphanumeric(#[trigger] s[i]) && !is_capital(s[i])) || s[i] == '-'
    &&& forall|i: int, j: int|
        0 <= i < s.len() && j == i + 1 && j < s.len() && (#[trigger] s[i]) == '-' ==> (
        #[trigger] s[j]) != '-'
}

/// The letters and digits of ASCII in a text.
pub open spec fn letters(s: Seq<char>) -> Seq<char>
    decreases s.len(),
{
    if s.len() == 0 {
        Seq::empty()
    } else if is_alphanumeric(s.last()) {
        letters(s.drop_last()).push(s.last())
    } else {
        letters(s.drop_last())
    }
}

/// Whether no capital letter of ASCII stands in a text.
pub open spec fn no_capitals(s: Seq<char>) -> bool {
    forall|i: int| 0 <= i < s.len() ==> !is_capital(#[trigger] s[i])
}

proof fn lemma_joined_longer(parts: Seq<Seq<char>>, c: char)
    requires
        parts.len() > 0,
    ensures
        text::joined(parts.drop_last().push(parts.last().push(c)), "-"@) == text::joined(
            parts,
            "-"@,
        ).push(c),
{
    let longer = parts.drop_last().push(parts.last().push(c));
    assert(longer.drop_last() =~= parts.drop_last());
    assert(text::joined(longer, "-"@) =~= text::joined(parts, "-"@).push(c));
}

proof fn lemma_joined_more(parts: Seq<Seq<char>>, c: char)
    requires
        parts.len() > 0,
    ensures
        text::joined(parts.push(seq![c]), "-"@) == text::joined(parts, "-"@).push('-').push(c),
{
    reveal_strlit("-");
    let more = parts.push(seq![c]);
    assert(more.drop_last() =~= parts);
    assert(text::joined(more, "-"@) =~= text::joined(parts, "-"@).push('-').push(c));
}

proof fn lemma_slug_grows(s: Seq<char>, c: char)
    requires
        is_slug(s),
        is_alphanumeric(c),
        !is_capital(c),
    ensures
        is_slug(s.push(c)),
        is_slug(s.push('-').push(c)),
{
    let more = s.push('-').push(c);
    assert(more[0] == s[0]);
    assert forall|i: int, j: int|
        0 <= i < more.len() && j == i + 1 && j < more.len() && (#[trigger] more[i])
            == '-' implies (#[trigger] more[j]) != '-' by {
        if i == s.len() - 1 {
            assert(s.last() == more[i]);
        } else if j < s.len() {
            assert(s[i] == '-' ==> s[j] != '-');
        }
    }
    let longer = s.push(c);
    assert(longer[0] == s[0]);
    assert forall|i: int, j: int|
        0 <= i < longer.len() && j == i + 1 && j < longer.len() && (#[trigger] longer[i])
            == '-' implies (#[trigger] longer[j]) != '-' by {
        if j < s.len() {
            assert(s[i] == '-' ==> s[j] != '-');
        }
    }
}

proof fn lemma_runs_joined(s: Seq<char>)
    requires
        no_capitals(s),
    ensures
        ({
            let parts = runs(s);
            let slug = text::joined(parts, "-"@);
            &&& parts.len() == 0 <==> letters(s).len() == 0
            &&& s.len() > 0 && is_alphanumeric(s.last()) ==> parts.len() > 0
            &&& parts.len() > 0 ==> is_slug(slug) && letters(slug) == letters(s)
        }),
    decreases s.len(),
{
    if s.len() > 0 {
        let rest = s.drop_last();
        let c = s.last();
        let parts = runs(rest);
        let slug = text::joined(parts, "-"@);
        assert(no_capitals(rest)) by {
            assert forall|i: int| 0 <= i < rest.len() implies !is_capital(#[trigger] rest[i]) by {
                assert(rest[i] == s[i]);
            }
        }
        lemma_runs_joined(rest);
        assert(!is_capital(s[s.len() - 1]));
        if is_alphanumeric(c) {
            if s.len() > 1 && is_alphanumeric(s[s.len() - 2]) {
                assert(rest.last() == s[s.len() - 2]);
                lemma_joined_longer(parts, c);
                lemma_slug_grows(slug, c);
                assert(slug.push(c).drop_last() =~= slug);
            } else if parts.len() > 0 {
                lemma_joined_more(parts, c);
                lemma_slug_grows(slug, c);
                let more = slug.push('-').push(c);
                assert(more.drop_last() =~= slug.push('-'));
                assert(slug.push('-').drop_last() =~= slug);
                assert(!is_alphanumeric('-'));
                assert(letters(slug.push('-')) == letters(slug));
                assert(letters(more) == letters(slug).push(c));
            } else {
                let one = seq![c];
                assert(runs(s) =~= seq![one]);
                assert(text::joined(runs(s), "-"@) == one);
                assert(letters(rest) =~= Seq::<char>::empty());
                assert(one.drop_last() =~= Seq::<char>::empty());
                assert(letters(one.drop_last()) =~= Seq::<char>::empty());
                assert(letters(one) =~= letters(s));
                assert(is_slug(one));
            }
        }
    }
}

proof fn lemma_slug_runs(s: Seq<char>)
    requires
        s.len() > 0,
        s[0] != '-',
        forall|i: int| 0 <= i < s.len() ==> is_alphanumeric(#[trigger] s[i]) || s[i] == '-',
        forall|i: int, j: int|
            0 <= i < s.len() && j == i + 1 && j < s.len() && (#[trigger] s[i]) == '-' ==> (
            #[trigger] s[j]) != '-',
    ensures
        runs(s).len() > 0,
        text::joined(runs(s), "-"@) == if s.last() == '-' {
            s.drop_last()
        } else {
            s
        },
    decreases s.len(),
{
    let rest = s.drop_last();
    let c = s.last();
    assert(s[s.len() - 1] == c);
    assert(!is_alphanumeric('-'));
    if rest.len() > 0 {
        assert(rest[0] == s[0]);
        assert forall|i: int| 0 <= i < rest.len() implies is_alphanumeric(#[trigger] rest[i])
            || rest[i] == '-' by {
            assert(rest[i] == s[i]);
        }
        assert forall|i: int, j: int|
            0 <= i < rest.len() && j == i + 1 && j < rest.len() && (#[trigger] rest[i])
                == '-' implies (#[trigger] rest[j]) != '-' by {
            assert(s[i] == '-' ==> s[j] != '-');
        }
        lemma_slug_runs(rest);
        let before = s[s.len() - 2];
        assert(rest.last() == before);
        assert(before == '-' ==> c != '-');
        if is_alphanumeric(c) {
            if is_alphanumeric(before) {
                lemma_joined_longer(runs(rest), c);
                assert(rest.push(c) =~= s);
            } else {
                lemma_joined_more(runs(rest), c);
                assert(rest.drop_last().push('-').push(c) =~= s);
            }
        } else {
            assert(runs(s) == runs(rest));
        }
    } else {
        assert(runs(s) =~= seq![seq![c]]);
        assert(text::joined(runs(s), "-"@) == seq![c]);
        assert(seq![c] =~= s);
    }
}

/// A slug holds the letters and digits of its text in their order, and nothing else but single dashes
/// between them; where there are none it is a name of its own.
pub proof fn law_slugs_hold_the_letters(s: Seq<char>)
    requires
        no_capitals(s),
    ensures
        is_slug(slug_text(s)),
        letters(s).len() > 0 ==> letters(slug_text(s)) == letters(s),
        letters(s).len() == 0 ==> slug_text(s) == "workspace"@,
{
    lemma_runs_joined(s);
    reveal_strlit("workspace");
}

/// A slug is its own slug.
pub proof fn law_slugs_stay(s: Seq<char>)
    requires
        is_slug(s),
    ensures
        lowercased_text(s) == s,
        slug_text(lowercased_text(s)) == s,
{
    lemma_small_letters_stay(s);
    lemma_slug_runs(s);
}

proof fn lemma_small_letters_stay(s: Seq<char>)
    requires
        forall|i: int|
            0 <= i < s.len() ==> (#[trigger] s[i]) as u32 <= 127 && !is_capital(s[i]),
    ensures
        lowercased_text(s) == s,
    decreases s.len(),
{
    if s.len() > 0 {
        let rest = s.drop_last();
        assert forall|i: int| 0 <= i < rest.len() implies (#[trigger] rest[i]) as u32 <= 127
            && !is_capital(rest[i]) by {
            assert(rest[i] == s[i]);
        }
        lemma_small_letters_stay(rest);
        assert(s[s.len() - 1] == s.last());
        assert(rest + seq![s.last()] =~= s);
    } else {
        assert(lowercased_text(s) =~= s);
    }
}

/// A name made of small letters, digits and single dashes for `value`: the letters and digits of the
/// value in their order. It is its own slug.
pub fn slug(value: &str) -> (r: String)
    ensures
        r@ == slug_text(lowercased_text(value@)),
        is_slug(r@),
        letters(lowercased_text(value@)).len() > 0 ==> letters(r@) == letters(
            lowercased_text(value@),
        ),
        slug_text(lowercased_text(r@)) == r@,
{
    let chars = text::chars_of(value);
    let mut lower: Vec<char> = Vec::new();
    let mut i: usize = 0;
    assert(chars@.take(0) =~= Seq::<char>::empty());
    while i < chars.len()
        invariant
            0 <= i <= chars@.len(),
            lower@ == lowercased_text(chars@.take(i as int)),
            no_capitals(lower@),
        decreases chars@.len() - i,
    {
        proof {
            assert(chars@.take(i + 1).drop_last() =~= chars@.take(i as int));
            assert(chars@.take(i + 1).last() == chars@[i as int]);
        }
        let mut piece = lowercase(chars[i]);
        lower.append(&mut piece);
        i += 1;
    }
    assert(chars@.take(chars@.len() as int) =~= chars@);
    proof {
        law_slugs_hold_the_letters(lower@);
        law_slugs_stay(slug_text(lower@));
    }
    slug_of(&lower)
}

/// The SHA-256 digest of `bytes`.
pub uninterp spec fn sha256_digest(bytes: Seq<u8>) -> Seq<u8>;

/// `sha2::Sha256::digest`: 32 bytes that depend on the input alone.
#[verifier::external_body]
fn sha256(bytes: &[u8]) -> (r: Vec<u8>)
    ensures
        r@ == sha256_digest(bytes@),
        r@.len() == 32,
{
    <sha2::Sha256 as sha2::Digest>::digest(bytes).to_vec()
}

/// The hexadecimal digit that stands for `n`.
pub open spec fn hex_digit(n: u8) -> char {
    if n < 10 {
        (48 + n) as char
    } else {
        (87 + n) as char
    }
}

/// The first `count` bytes in hexadecimal, two digits each.
pub open spec fn hex_text(bytes: Seq<u8>, count: nat) -> Seq<char>
    decreases count,
{
    if count == 0 {
        Seq::empty()
    } else {
        let b = bytes[count - 1];
        hex_text(bytes, (count - 1) as nat).push(hex_digit((b / 16) as u8)).push(
            hex_digit((b % 16) as u8),
        )
    }
}

fn hex_char(n: u8) -> (r: char)
    requires
        n < 16,
    ensures
        r == hex_digit(n),
{
    if n < 10 {
        (48 + n) as char
    } else {
        (87 + n) as char
    }
}

/// Writes the first 8 bytes in hexadecimal.
pub fn hex16(bytes: &Vec<u8>) -> (r: String)
    requires
        bytes@.len() >= 8,
    ensures
        r@ == hex_text(bytes@, 8),
        r@.len() == 16,
{
    let mut r = String::new();
    let mut i: usize = 0;
    while i < 8
        invariant
            0 <= i <= 8 <= bytes@.len(),
            r@ == hex_text(bytes@, i as nat),
            r@.len() == 2 * i,
        decreases 8 - i,
    {
        let b: u8 = bytes[i];
        r.push(hex_char(b / 16));
        r.push(hex_char(b % 16));
        i += 1;
    }
    r
}

/// The identity of a workspace: a slug of its directory's name, and 16 digits that depend on its
/// whole path.
pub open spec fn workspace_identity(path: Seq<char>) -> Seq<char> {
    let name = match file_name_of(path) {
        Some(name) => name,
        None => "workspace"@,
    };
    slug_text(lowercased_text(name)) + "-"@ + hex_text(
        sha256_digest(vstd::utf8::encode_utf8(path)),
        8,
    )
}

/// The identity of the workspace at a canonical path.
pub fn workspace_id_from_canonical_path(path: &str) -> (r: String)
    ensures
        r@ == workspace_identity(path@),
{
    let parts = components(path);
    let n: usize = parts.len();
    proof {
        if n > 0 {
            assert(text::views(parts@).last() == parts@[n - 1]@);
        }
    }
    let name = if n == 0 || text::same_text(parts[n - 1].as_str(), "..") {
        "workspace".to_owned()
    } else {
        parts[n - 1].clone()
    };
    let digest = sha256(path.as_bytes());
    text::text3(slug(name.as_str()).as_str(), "-", hex16(&digest).as_str())
}

/// The directory of a workspace under `home`.
pub open spec fn workspace_directory(home: Seq<char>, workspace_id: Seq<char>) -> Seq<char> {
    joined_path(joined_path(joined_path(home, "plato-agent"@), "workspaces"@), workspace_id)
}

fn workspace_dir(home: &str, workspace_id: &str) -> (r: String)
    ensures
        r@ == workspace_directory(home@, workspace_id@),
{
    let base = join_path(home, "plato-agent");
    let workspaces = join_path(base.as_str(), "workspaces");
    join_path(workspaces.as_str(), workspace_id)
}

/// The ledger of a workspace.
pub fn default_sqlite_path(state_home: &str, workspace_id: &str) -> (r: String)
    ensures
        r@ == joined_path(workspace_directory(state_home@, workspace_id@), "agent.db"@),
{
    join_path(workspace_dir(state_home, workspace_id).as_str(), "agent.db")
}

/// The socket of a workspace's daemon.
pub fn default_socket_path(runtime_home: &str, workspace_id: &str) -> (r: String)
    ensures
        r@ == joined_path(workspace_directory(runtime_home@, workspace_id@), "agent.sock"@),
{
    join_path(workspace_dir(runtime_home, workspace_id).as_str(), "agent.sock")
}

/// The lock of a workspace's daemon.
pub fn default_lock_path(runtime_home: &str, workspace_id: &str) -> (r: String)
    ensures
        r@ == joined_path(workspace_directory(runtime_home@, workspace_id@), "agent.lock"@),
{
    join_path(workspace_dir(runtime_home, workspace_id).as_str(), "agent.lock")
}

/// Whether an environment variable is set to something.
pub open spec fn is_set(value: Option<String>) -> bool {
    value matches Some(v) && v@.len() > 0
}

/// Where state is kept: the directory that the environment names, else the usual one under the home
/// directory.
pub fn state_home(xdg_state_home: &Option<String>, home: &Option<String>) -> (r: AppResult<String>)
    ensures
        is_set(*xdg_state_home) ==> (r matches Ok(path) && path@ == xdg_state_home->Some_0@),
        !is_set(*xdg_state_home) && home is Some ==> (r matches Ok(path) && path@ == joined_path(
            joined_path(home->Some_0@, ".local"@),
            "state"@,
        )),
        !is_set(*xdg_state_home) && home is None ==> (r matches Err(AppError::Config(detail))
            && detail@ == "HOME is required for default --db path"@),
{
    if let Some(value) = xdg_state_home {
        if !value.as_str().is_empty() {
            return Ok(value.clone());
        }
    }
    match home {
        Some(h) => Ok(join_path(join_path(h.as_str(), ".local").as_str(), "state")),
        None => Err(AppError::Config("HOME is required for default --db path".to_owned())),
    }
}

/// Where sockets and locks are kept, and whether that is the fallback under the temporary
/// directory.
pub fn runtime_home_and_fallback(
    xdg_runtime_dir: &Option<String>,
    temp_dir: &str,
    user_id: u32,
) -> (r: (String, bool))
    ensures
        r.1 == !is_set(*xdg_runtime_dir),
        is_set(*xdg_runtime_dir) ==> r.0@ == xdg_runtime_dir->Some_0@,
        !is_set(*xdg_runtime_dir) ==> r.0@ == joined_path(
            temp_dir@,
            "plato-agent-"@ + text::decimal(user_id as nat),
        ),
{
    if let Some(value) = xdg_runtime_dir {
        if !value.as_str().is_empty() {
            return (value.clone(), false);
        }
    }
    let name = text::text2("plato-agent-", text::decimal_u64(user_id as u64).as_str());
    (join_path(temp_dir, name.as_str()), true)
}

/// 16-bit units as bytes, the lower one of each first.
pub open spec fn unit_bytes(units: Seq<u16>) -> Seq<u8>
    decreases units.len(),
{
    if units.len() == 0 {
        Seq::empty()
    } else {
        unit_bytes(units.drop_last()).push((units.last() % 256) as u8).push(
            (units.last() / 256) as u8,
        )
    }
}

fn bytes_of_units(units: &Vec<u16>) -> (r: Vec<u8>)
    ensures
        r@ == unit_bytes(units@),
{
    let mut bytes: Vec<u8> = Vec::new();
    assert(units@.take(0) =~= Seq::empty());
    let mut i: usize = 0;
    while i < units.len()
        invariant
            0 <= i <= units@.len(),
            bytes@ == unit_bytes(units@.take(i as int)),
        decreases units@.len() - i,
    {
        let unit: u16 = units[i];
        assert(units@.take(i + 1).drop_last() =~= units@.take(i as int));
        bytes.push((unit % 256) as u8);
        bytes.push((unit / 256) as u8);
        i += 1;
    }
    assert(units@.take(units@.len() as int) =~= units@);
    bytes
}

/// The identity of a workspace on Windows: at most 64 characters of a slug of its directory's name,
/// and 16 digits that depend on its whole path.
pub open spec fn windows_identity(name: Option<Seq<char>>, path: Seq<u16>) -> Seq<char> {
    let name = match name {
        Some(name) => name,
        None => "workspace"@,
    };
    text::first_chars(slug_text(lowercased_text(name)), 64) + "-"@ + hex_text(
        sha256_digest(unit_bytes(path)),
        8,
    )
}

/// The identity of the workspace at a canonical path on Windows: `name` is the directory's name
/// where it is text, `path` the whole path.
pub fn windows_workspace_id(name: &Option<String>, path: &Vec<u16>) -> (r: String)
    ensures
        r@ == windows_identity(text::opt_view(*name), path@),
{
    let slug = match name {
        Some(name) => slug(name.as_str()),
        None => slug("workspace"),
    };
    let bytes = bytes_of_units(path);
    let digest = sha256(bytes.as_slice());
    text::text3(text::head(slug.as_str(), 64).as_str(), "-", hex16(&digest).as_str())
}

/// The pipe of a workspace's daemon on Windows.
pub open spec fn pipe_name(workspace_id: Seq<char>) -> Seq<char> {
    "\\\\.\\pipe\\plato-agent-"@ + workspace_id
}

/// The pipe of a workspace's daemon on Windows.
pub fn windows_pipe_path(workspace_id: &str) -> (r: String)
    ensures
        r@ == pipe_name(workspace_id@),
{
    text::text2("\\\\.\\pipe\\plato-agent-", workspace_id)
}

/// Where state, sockets and locks are kept on Windows: the directory that `LOCALAPPDATA` names.
pub fn local_app_data(value: &Option<String>, purpose: &str) -> (r: AppResult<String>)
    ensures
        is_set(*value) ==> (r matches Ok(path) && path@ == value->Some_0@),
        !is_set(*value) ==> (r matches Err(AppError::Config(detail)) && detail@
            == "LOCALAPPDATA is required for "@ + purpose@),
{
    if let Some(value) = value {
        if !value.as_str().is_empty() {
            return Ok(value.clone());
        }
    }
    Err(AppError::Config(text::text2("LOCALAPPDATA is required for ", purpose)))
}

proof fn lemma_hex_length(bytes: Seq<u8>, count: nat)
    ensures
        hex_text(bytes, count).len() == 2 * count,
    decreases count,
{
    if count > 0 {
        lemma_hex_length(bytes, (count - 1) as nat);
    }
}

/// However long a workspace's name is, its identity on Windows has at most 81 characters, and its
/// pipe's name at most 102.
pub proof fn law_pipe_names_are_bounded(name: Option<Seq<char>>, path: Seq<u16>)
    ensures
        windows_identity(name, path).len() <= 81,
        pipe_name(windows_identity(name, path)).len() <= 102,
{
    lemma_hex_length(sha256_digest(unit_bytes(path)), 8);
    reveal_strlit("-");
    reveal_strlit("\\\\.\\pipe\\plato-agent-");
}

/// A path that is joined to a directory lies behind it, unless it is absolute.
pub proof fn law_paths_are_joined(base: Seq<char>, path: Seq<char>)
    ensures
        path.len() > 0 && path[0] == '/' ==> joined_path(base, path) == path,
        base.len() == 0 ==> joined_path(base, path) == path,
        base.len() > 0 && base.last() == '/' && (path.len() == 0 || path[0] != '/') ==> joined_path(
            base,
            path,
        ) == base + path,
        base.len() > 0 && base.last() != '/' && (path.len() == 0 || path[0] != '/') ==> joined_path(
            base,
            path,
        ) == base + "/"@ + path,
{
}

/// A path is taken apart at its slashes: the parts of two paths with a slash between them are the parts
/// of the one and then those of the other. A part without a slash is itself, but an empty one and a
/// single dot are none.
pub proof fn law_paths_are_taken_apart_at_slashes(a: Seq<char>, b: Seq<char>, piece: Seq<char>)
    requires
        forall|i: int| 0 <= i < piece.len() ==> (#[trigger] piece[i]) != '/',
    ensures
        components_of(a + seq!['/'] + b) == components_of(a) + components_of(b),
        piece.len() > 0 && piece != "."@ ==> components_of(piece) == seq![piece],
        piece.len() == 0 || piece == "."@ ==> components_of(piece) == Seq::<Seq<char>>::empty(),
{
    lemma_slash_pieces(a, b);
    let test = |piece: Seq<char>| is_component(piece);
    Seq::filter_distributes_over_add(slash_pieces(a), slash_pieces(b), test);
    text::lemma_first_index(piece, '/', piece.len() as int);
    let one = seq![piece];
    assert(slash_pieces(piece) == one);
    assert(one.drop_last() =~= Seq::empty());
    reveal(Seq::filter);
    assert(one.drop_last().filter(test) =~= Seq::empty());
    assert(one.last() == piece);
    if test(piece) {
        assert(one.filter(test) =~= seq![piece]);
    } else {
        assert(one.filter(test) =~= Seq::empty());
    }
}

proof fn lemma_slash_pieces(a: Seq<char>, b: Seq<char>)
    ensures
        slash_pieces(a + seq!['/'] + b) == slash_pieces(a) + slash_pieces(b),
    decreases a.len(),
{
    let whole = a + seq!['/'] + b;
    let k = text::first_index(a, '/') as int;
    text::lemma_first_index_is_least(a, '/');
    if k >= a.len() {
        text::lemma_first_index(whole, '/', a.len() as int);
        assert(whole.take(a.len() as int) =~= a);
        assert(whole.skip(a.len() as int + 1) =~= b);
        assert(slash_pieces(whole) =~= seq![a] + slash_pieces(b));
    } else {
        text::lemma_first_index(whole, '/', k);
        let rest = a.skip(k + 1);
        lemma_slash_pieces(rest, b);
        assert(whole.take(k) =~= a.take(k));
        assert(whole.skip(k + 1) =~= rest + seq!['/'] + b);
        assert(slash_pieces(whole) =~= slash_pieces(a) + slash_pieces(b));
    }
}

/// A path leads out of the workspace where it is absolute or climbs anywhere; what does not climb, and is
/// joined to the root, lies in the root.
pub proof fn law_climbing_paths_escape(root: Seq<char>, a: Seq<char>, b: Seq<char>)
    ensures
        a.len() > 0 && a[0] == '/' ==> escapes(a),
        components_of(a).contains(".."@) ==> escapes(a) && escapes(a + seq!['/'] + b) && escapes(
            b + seq!['/'] + a,
        ),
        !escapes(a) && root.len() > 0 && root.last() != '/' ==> lies_in(joined_path(root, a), root),
        lies_in(root, root),
{
    let nothing = Seq::<char>::empty();
    law_paths_are_taken_apart_at_slashes(a, b, nothing);
    law_paths_are_taken_apart_at_slashes(b, a, nothing);
    if components_of(a).contains(".."@) {
        let i = choose|i: int| 0 <= i < components_of(a).len() && components_of(a)[i] == ".."@;
        assert((components_of(a) + components_of(b))[i] == ".."@);
        assert((components_of(b) + components_of(a))[components_of(b).len() + i] == ".."@);
    }
    let outer = components_of(root);
    assert(outer.take(outer.len() as int) =~= outer);
    if !escapes(a) && root.len() > 0 && root.last() != '/' {
        reveal_strlit("/");
        assert("/"@ =~= seq!['/']);
        law_paths_are_taken_apart_at_slashes(root, a, nothing);
        let inner = components_of(root + seq!['/'] + a);
        assert(inner.take(outer.len() as int) =~= outer);
    }
}

/// The name of a file is the last part of its path, and one that climbs has none.
pub proof fn law_files_are_named_by_their_last_part(path: Seq<char>, piece: Seq<char>)
    requires
        forall|i: int| 0 <= i < piece.len() ==> (#[trigger] piece[i]) != '/',
        piece.len() > 0,
        piece != "."@,
    ensures
        piece != ".."@ ==> file_name_of(path + seq!['/'] + piece) == Some(piece),
        piece == ".."@ ==> file_name_of(path + seq!['/'] + piece) is None,
{
    law_paths_are_taken_apart_at_slashes(path, piece, piece);
    let parts = components_of(path) + seq![piece];
    assert(parts.last() == piece);
}

/// A workspace lives under the home of the agent, in a directory of its own name, and its name ends with
/// sixteen digits of the digest of its path.
pub proof fn law_workspaces_have_their_directory(home: Seq<char>, id: Seq<char>, path: Seq<char>)
    requires
        home.len() > 0,
        home.last() != '/',
        id.len() > 0,
        id[0] != '/',
    ensures
        workspace_directory(home, id) == home + "/"@ + "plato-agent"@ + "/"@ + "workspaces"@ + "/"@
            + id,
        ({
            let name = workspace_identity(path);
            let digits = hex_text(sha256_digest(vstd::utf8::encode_utf8(path)), 8);
            &&& digits.len() == 16
            &&& name.len() > 17
            &&& name.skip(name.len() - 16) == digits
            &&& name[name.len() - 17] == '-'
        }),
{
    reveal_strlit("plato-agent");
    reveal_strlit("workspaces");
    reveal_strlit("-");
    let first = home + "/"@ + "plato-agent"@;
    assert(first.last() == 't');
    let second = first + "/"@ + "workspaces"@;
    assert(second.last() == 's');
    let bytes = sha256_digest(vstd::utf8::encode_utf8(path));
    lemma_hex_length(bytes, 8);
    let name = workspace_identity(path);
    let digits = hex_text(bytes, 8);
    assert(name.skip(name.len() - 16) =~= digits);
    let called = match file_name_of(path) {
        Some(name) => name,
        None => "workspace"@,
    };
    reveal_strlit("workspace");
    lemma_slug_is_something(lowercased_text(called));
}

proof fn lemma_slug_is_something(s: Seq<char>)
    ensures
        slug_text(s).len() > 0,
{
    reveal_strlit("workspace");
    lemma_runs_are_something(s);
    if runs(s).len() > 1 {
        assert(text::joined(runs(s), "-"@).len() >= runs(s).last().len());
        assert(runs(s).last().len() > 0);
    }
}

proof fn lemma_runs_are_something(s: Seq<char>)
    ensures
        forall|i: int| 0 <= i < runs(s).len() ==> (#[trigger] runs(s)[i]).len() > 0,
        s.len() > 0 && is_alphanumeric(s.last()) ==> runs(s).len() > 0,
    decreases s.len(),
{
    if s.len() > 0 {
        let before = runs(s.drop_last());
        let after = runs(s);
        lemma_runs_are_something(s.drop_last());
        assert forall|i: int| 0 <= i < after.len() implies (#[trigger] after[i]).len() > 0 by {
            if i < before.len() && (i + 1 < after.len() || !is_alphanumeric(s.last())) {
                assert(after[i] == before[i]);
            }
        }
    }
}

/// Bytes are shown as two digits each, the higher first, in their order.
pub proof fn law_bytes_are_shown_in_hex(bytes: Seq<u8>, count: nat)
    ensures
        hex_text(bytes, 0) == Seq::<char>::empty(),
        count > 0 ==> hex_text(bytes, count) == hex_text(bytes, (count - 1) as nat) + seq![
            hex_digit((bytes[count - 1] / 16) as u8),
            hex_digit((bytes[count - 1] % 16) as u8),
        ],
{
    if count > 0 {
        assert(hex_text(bytes, count) =~= hex_text(bytes, (count - 1) as nat) + seq![
            hex_digit((bytes[count - 1] / 16) as u8),
            hex_digit((bytes[count - 1] % 16) as u8),
        ]);
    }
}

} // verus!
