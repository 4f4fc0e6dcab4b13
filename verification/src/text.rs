//! Text as sequences of characters: searching, splitting, trimming and joining.

use vstd::prelude::*;

verus! {

/// `pattern` stands in `text` at position `at`.
pub open spec fn occurs_at(text: Seq<char>, pattern: Seq<char>, at: int) -> bool {
    &&& 0 <= at
    &&& at + pattern.len() <= text.len()
    &&& text.subrange(at, at + pattern.len()) == pattern
}

/// `pattern` stands somewhere in `text`.
pub open spec fn contains_text(text: Seq<char>, pattern: Seq<char>) -> bool {
    exists|at: int| occurs_at(text, pattern, at)
}

/// The first position at or after `from` where `pattern` stands in `text`.
pub open spec fn find_from(text: Seq<char>, pattern: Seq<char>, from: int) -> Option<int>
    decreases text.len() - from + 1,
{
    if from < 0 || from + pattern.len() > text.len() {
        None
    } else if occurs_at(text, pattern, from) {
        Some(from)
    } else {
        find_from(text, pattern, from + 1)
    }
}

/// The characters of `text`.
pub fn to_chars(text: &str) -> (chars: Vec<char>)
    ensures
        chars@ == text@,
{
    let mut chars: Vec<char> = Vec::new();
    for c in it: text.chars()
        invariant
            it.seq() == text@,
            chars@ == text@.take(it.index()),
    {
        chars.push(c);
    }
    chars
}

/// The two sequences hold the same characters.
pub fn same_chars(a: &[char], b: &[char]) -> (same: bool)
    ensures
        same == (a@ == b@),
{
    if a.len() != b.len() {
        return false;
    }
    let mut i: usize = 0;
    while i < a.len()
        invariant
            i <= a.len(),
            a@.len() == b@.len(),
            forall|j: int| 0 <= j < i ==> a@[j] == b@[j],
        decreases a.len() - i,
    {
        if a[i] != b[i] {
            assert(a@[i as int] != b@[i as int]);
            return false;
        }
        i = i + 1;
    }
    assert(a@ =~= b@);
    true
}

/// `a` and `b` are the same text.
pub fn same_text(a: &str, b: &str) -> (same: bool)
    ensures
        same == (a@ == b@),
{
    let x = to_chars(a);
    let y = to_chars(b);
    same_chars(x.as_slice(), y.as_slice())
}

/// Whether `pattern` stands in `text` at position `at`.
fn matches_at(text: &[char], pattern: &[char], at: usize) -> (found: bool)
    requires
        at <= text@.len(),
    ensures
        found == occurs_at(text@, pattern@, at as int),
{
    let len: usize = text.len();
    if pattern.len() > len - at {
        return false;
    }
    let mut i: usize = 0;
    while i < pattern.len()
        invariant
            i <= pattern.len(),
            len == text@.len(),
            at + pattern@.len() <= len,
            forall|j: int| 0 <= j < i ==> text@[at + j] == pattern@[j],
        decreases pattern.len() - i,
    {
        if text[at + i] != pattern[i] {
            assert(text@.subrange(at as int, at + pattern@.len())[i as int] != pattern@[i as int]);
            return false;
        }
        i = i + 1;
    }
    assert(text@.subrange(at as int, at + pattern@.len()) =~= pattern@);
    true
}

/// Position of the first `pattern` at or after `from`.
fn search(text: &[char], pattern: &[char], from: usize) -> (found: Option<usize>)
    requires
        from <= text@.len(),
    ensures
        match found {
            Some(at) => find_from(text@, pattern@, from as int) == Some(at as int),
            None => find_from(text@, pattern@, from as int) is None,
        },
{
    let len: usize = text.len();
    let mut at: usize = from;
    while pattern.len() <= len - at
        invariant
            at <= len,
            len == text@.len(),
            find_from(text@, pattern@, from as int) == find_from(text@, pattern@, at as int),
        decreases len - at,
    {
        if matches_at(text, pattern, at) {
            return Some(at);
        }
        if at == len {
            proof {
                reveal_with_fuel(find_from, 2);
            }
            return None;
        }
        at = at + 1;
    }
    None
}

/// The pieces of `text` between the separators, which are found from the left
/// and do not overlap; text without a separator is one piece.
pub open spec fn split_on(text: Seq<char>, separator: Seq<char>) -> Seq<Seq<char>>
    decreases text.len(),
{
    match find_from(text, separator, 0) {
        Some(at) => if separator.len() > 0 && 0 <= at && at + separator.len() <= text.len() {
            seq![text.take(at)] + split_on(text.skip(at + separator.len()), separator)
        } else {
            seq![text]
        },
        None => seq![text],
    }
}

/// What `find_from` finds is an occurrence, and nothing before it is one; what
/// it does not find is not there.
pub proof fn find_from_is_first(text: Seq<char>, pattern: Seq<char>, from: int)
    requires
        0 <= from,
    ensures
        match find_from(text, pattern, from) {
            Some(at) => {
                &&& from <= at
                &&& occurs_at(text, pattern, at)
                &&& forall|j: int| from <= j < at ==> !occurs_at(text, pattern, j)
            },
            None => forall|j: int| from <= j ==> !occurs_at(text, pattern, j),
        },
    decreases text.len() - from + 1,
{
    if from + pattern.len() <= text.len() && !occurs_at(text, pattern, from) {
        find_from_is_first(text, pattern, from + 1);
    }
}

/// Splitting gives at least one piece.
pub proof fn split_on_is_nonempty(text: Seq<char>, separator: Seq<char>)
    ensures
        split_on(text, separator).len() > 0,
{
}

/// Whether `pattern` stands somewhere in `text`.
pub fn text_contains(text: &str, pattern: &str) -> (found: bool)
    ensures
        found == contains_text(text@, pattern@),
{
    let t = to_chars(text);
    let p = to_chars(pattern);
    proof {
        find_from_is_first(text@, pattern@, 0);
    }
    search(t.as_slice(), p.as_slice(), 0).is_some()
}

/// The part of `text` behind `prefix`, where `text` begins with it.
pub fn text_after<'a>(text: &'a str, prefix: &str) -> (rest: Option<&'a str>)
    ensures
        match rest {
            Some(r) => prefix@.is_prefix_of(text@) && r@ == text@.skip(prefix@.len() as int),
            None => !prefix@.is_prefix_of(text@),
        },
{
    let t = to_chars(text);
    let p = to_chars(prefix);
    if matches_at(t.as_slice(), p.as_slice(), 0) {
        assert(text@.skip(prefix@.len() as int) =~= text@.subrange(prefix@.len() as int, text@.len() as int));
        Some(text.substring_char(p.len(), t.len()))
    } else {
        None
    }
}

/// Copies the characters from `from` up to `to`.
fn copy_range(text: &[char], from: usize, to: usize) -> (part: Vec<char>)
    requires
        from <= to <= text@.len(),
    ensures
        part@ == text@.subrange(from as int, to as int),
{
    let mut part: Vec<char> = Vec::new();
    let mut i: usize = from;
    while i < to
        invariant
            from <= i <= to <= text@.len(),
            part@ == text@.subrange(from as int, i as int),
        decreases to - i,
    {
        part.push(text[i]);
        i = i + 1;
    }
    part
}

/// Splits `text` at every `separator`, as `split_on` says.
pub fn split_chars(text: &[char], separator: &[char]) -> (pieces: Vec<Vec<char>>)
    requires
        separator@.len() > 0,
    ensures
        pieces@.map_values(|p: Vec<char>| p@) == split_on(text@, separator@),
{
    let len: usize = text.len();
    let mut pieces: Vec<Vec<char>> = Vec::new();
    let mut from: usize = 0;
    assert(text@.skip(0) =~= text@);
    loop
        invariant
            from <= len,
            len == text@.len(),
            separator@.len() > 0,
            split_on(text@, separator@) == pieces@.map_values(|p: Vec<char>| p@) + split_on(
                text@.skip(from as int),
                separator@,
            ),
        decreases len - from,
    {
        let ghost rest = text@.skip(from as int);
        let ghost before = pieces@;
        proof {
            find_from_shifts(text@, separator@, from as int, 0);
            find_from_is_first(text@, separator@, from as int);
        }
        match search(text, separator, from) {
            Some(at) => {
                let piece = copy_range(text, from, at);
                assert(rest.take(at - from) =~= piece@);
                assert(rest.skip(at - from + separator@.len()) =~= text@.skip(at
                    + separator@.len()));
                pieces.push(piece);
                from = at + separator.len();
                assert(pieces@.map_values(|p: Vec<char>| p@) =~= before.map_values(
                    |p: Vec<char>| p@,
                ) + seq![piece@]);
                assert(split_on(text@, separator@) =~= pieces@.map_values(|p: Vec<char>| p@)
                    + split_on(text@.skip(from as int), separator@));
            },
            None => {
                let piece = copy_range(text, from, len);
                assert(rest =~= piece@);
                pieces.push(piece);
                assert(pieces@.map_values(|p: Vec<char>| p@) =~= before.map_values(
                    |p: Vec<char>| p@,
                ) + seq![piece@]);
                return pieces;
            },
        }
    }
}

/// Searching a suffix finds what searching the whole text from there finds.
proof fn find_from_shifts(text: Seq<char>, pattern: Seq<char>, start: int, from: int)
    requires
        0 <= start <= text.len(),
        0 <= from,
    ensures
        find_from(text.skip(start), pattern, from) == (match find_from(
            text,
            pattern,
            start + from,
        ) {
            Some(at) => Some(at - start),
            None => None,
        }),
    decreases text.len() - start - from + 1,
{
    let rest = text.skip(start);
    if from + pattern.len() <= rest.len() {
        assert(rest.subrange(from, from + pattern.len()) =~= text.subrange(
            start + from,
            start + from + pattern.len(),
        ));
        if !occurs_at(rest, pattern, from) {
            find_from_shifts(text, pattern, start, from + 1);
        }
    }
}

/// The characters with the Unicode property `White_Space`.
pub open spec fn is_space(c: char) -> bool {
    let n = c as int;
    ||| 0x9 <= n <= 0xD
    ||| n == 0x20
    ||| n == 0x85
    ||| n == 0xA0
    ||| n == 0x1680
    ||| 0x2000 <= n <= 0x200A
    ||| n == 0x2028
    ||| n == 0x2029
    ||| n == 0x202F
    ||| n == 0x205F
    ||| n == 0x3000
}

/// `text` without the white space it begins with.
pub open spec fn trim_start(text: Seq<char>) -> Seq<char>
    decreases text.len(),
{
    if text.len() > 0 && is_space(text[0]) {
        trim_start(text.skip(1))
    } else {
        text
    }
}

/// `text` without the white space it ends with.
pub open spec fn trim_end(text: Seq<char>) -> Seq<char>
    decreases text.len(),
{
    if text.len() > 0 && is_space(text.last()) {
        trim_end(text.drop_last())
    } else {
        text
    }
}

/// `text` without the white space around it.
pub open spec fn trim(text: Seq<char>) -> Seq<char> {
    trim_end(trim_start(text))
}

/// Whether `c` is white space.
pub fn space_char(c: char) -> (space: bool)
    ensures
        space == is_space(c),
{
    let n: u32 = c as u32;
    (0x9 <= n && n <= 0xD) || n == 0x20 || n == 0x85 || n == 0xA0 || n == 0x1680 || (0x2000 <= n
        && n <= 0x200A) || n == 0x2028 || n == 0x2029 || n == 0x202F || n == 0x205F || n == 0x3000
}

/// Cuts the white space off both ends of `text`.
pub fn trim_chars(text: &[char]) -> (trimmed: Vec<char>)
    ensures
        trimmed@ == trim(text@),
{
    let mut from: usize = 0;
    assert(text@.skip(0) =~= text@);
    while from < text.len() && space_char(text[from])
        invariant
            from <= text@.len(),
            trim_start(text@) == trim_start(text@.skip(from as int)),
        decreases text@.len() - from,
    {
        assert(text@.skip(from as int).skip(1) =~= text@.skip(from + 1));
        from = from + 1;
    }
    let mut to: usize = text.len();
    assert(text@.subrange(from as int, to as int) =~= text@.skip(from as int));
    while from < to && space_char(text[to - 1])
        invariant
            from <= to <= text@.len(),
            trim(text@) == trim_end(text@.subrange(from as int, to as int)),
        decreases to - from,
    {
        assert(text@.subrange(from as int, to as int).drop_last() =~= text@.subrange(
            from as int,
            to - 1,
        ));
        to = to - 1;
    }
    copy_range(text, from, to)
}

/// The parts one after another, with `separator` between neighbours.
pub open spec fn joined(parts: Seq<Seq<char>>, separator: Seq<char>) -> Seq<char>
    decreases parts.len(),
{
    if parts.len() == 0 {
        Seq::empty()
    } else if parts.len() == 1 {
        parts[0]
    } else {
        joined(parts.drop_last(), separator) + separator + parts.last()
    }
}

/// Joins the parts with `separator` between neighbours.
pub fn join_text(parts: &[String], separator: &str) -> (text: String)
    ensures
        text@ == joined(parts.deep_view(), separator@),
{
    let mut text = String::new();
    let mut i: usize = 0;
    while i < parts.len()
        invariant
            i <= parts@.len(),
            text@ == joined(parts.deep_view().take(i as int), separator@),
        decreases parts@.len() - i,
    {
        assert(parts.deep_view().take(i + 1).drop_last() =~= parts.deep_view().take(i as int));
        assert(parts.deep_view()[i as int] == parts@[i as int]@);
        if i > 0 {
            text.append(separator);
        }
        text.append(parts[i].as_str());
        i = i + 1;
    }
    assert(parts.deep_view().take(i as int) =~= parts.deep_view());
    text
}

/// Joining what begins with `first` begins with `first`.
proof fn joined_begins(first: Seq<char>, rest: Seq<Seq<char>>, separator: Seq<char>)
    requires
        rest.len() > 0,
    ensures
        joined(seq![first] + rest, separator) == first + separator + joined(rest, separator),
    decreases rest.len(),
{
    let all = seq![first] + rest;
    assert(all.last() == rest.last());
    if rest.len() == 1 {
        assert(all.drop_last() =~= seq![first]);
        assert(joined(all.drop_last(), separator) == first);
    } else {
        assert(all.drop_last() =~= seq![first] + rest.drop_last());
        joined_begins(first, rest.drop_last(), separator);
        assert(joined(all, separator) =~= first + separator + joined(rest, separator));
    }
}

/// Splitting loses nothing: the pieces with the separator between them are the
/// text again.
pub proof fn splitting_loses_nothing(text: Seq<char>, separator: Seq<char>)
    ensures
        joined(split_on(text, separator), separator) == text,
    decreases text.len(),
{
    find_from_is_first(text, separator, 0);
    match find_from(text, separator, 0) {
        Some(at) => if separator.len() > 0 {
            let rest = text.skip(at + separator.len());
            splitting_loses_nothing(rest, separator);
            split_on_is_nonempty(rest, separator);
            joined_begins(text.take(at), split_on(rest, separator), separator);
            assert(text.subrange(at, at + separator.len()) == separator);
            assert(text =~= text.take(at) + separator + rest);
        },
        None => {},
    }
}

/// The first separator in `part` followed by a separator is the one that
/// follows it.
pub open spec fn ends_at_separator(part: Seq<char>, separator: Seq<char>) -> bool {
    forall|j: int| 0 <= j < part.len() ==> !#[trigger] occurs_at(part + separator, separator, j)
}

/// Splitting undoes joining, where no separator begins within a part.
pub proof fn splitting_undoes_joining(parts: Seq<Seq<char>>, separator: Seq<char>)
    requires
        parts.len() > 0,
        separator.len() > 0,
        forall|i: int| 0 <= i < parts.len() ==> ends_at_separator(#[trigger] parts[i], separator),
    ensures
        split_on(joined(parts, separator), separator) == parts,
    decreases parts.len(),
{
    let text = joined(parts, separator);
    let first = parts[0];
    find_from_is_first(text, separator, 0);
    if parts.len() == 1 {
        assert forall|j: int| 0 <= j implies !occurs_at(text, separator, j) by {
            if occurs_at(text, separator, j) {
                assert((first + separator).subrange(j, j + separator.len()) =~= text.subrange(
                    j,
                    j + separator.len(),
                ));
                assert(occurs_at(first + separator, separator, j));
            }
        }
        assert(parts =~= seq![text]);
    } else {
        let others = parts.skip(1);
        assert forall|i: int| 0 <= i < others.len() implies ends_at_separator(
            #[trigger] others[i],
            separator,
        ) by {
            assert(others[i] == parts[i + 1]);
        }
        splitting_undoes_joining(others, separator);
        let rest = joined(others, separator);
        let at = first.len() as int;
        assert(parts =~= seq![first] + others);
        joined_begins(first, others, separator);
        assert(text.subrange(at, at + separator.len()) =~= separator);
        assert(occurs_at(text, separator, at));
        assert forall|j: int| 0 <= j < first.len() implies !occurs_at(text, separator, j) by {
            if occurs_at(text, separator, j) {
                assert((first + separator).subrange(j, j + separator.len()) =~= text.subrange(
                    j,
                    j + separator.len(),
                ));
                assert(occurs_at(first + separator, separator, j));
            }
        }
        assert(find_from(text, separator, 0) == Some(at));
        assert(text.take(at) =~= first);
        assert(text.skip(at + separator.len()) =~= rest);
        assert(split_on(text, separator) =~= parts);
    }
}

/// Trimming leaves text without white space at its ends as it is.
pub proof fn trimming_keeps_trimmed(text: Seq<char>)
    requires
        text.len() > 0 ==> !is_space(text[0]) && !is_space(text.last()),
    ensures
        trim(text) == text,
{
}

/// No separator that begins within `part` reaches into the separator that
/// follows it.
pub open spec fn ends_clear_of(part: Seq<char>, separator: Seq<char>) -> bool {
    forall|j: int|
        0 <= j < part.len() && j + separator.len() > part.len() ==> !#[trigger] occurs_at(
            part + separator,
            separator,
            j,
        )
}

/// Splitting goes part by part: the pieces of two texts with a separator
/// between them are the pieces of the one, then those of the other.
pub proof fn splitting_goes_part_by_part(a: Seq<char>, b: Seq<char>, separator: Seq<char>)
    requires
        separator.len() > 0,
        ends_clear_of(a, separator),
    ensures
        split_on(a + separator + b, separator) == split_on(a, separator) + split_on(b, separator),
    decreases a.len(),
{
    let whole = a + separator + b;
    let len = separator.len() as int;
    find_from_is_first(a, separator, 0);
    find_from_is_first(whole, separator, 0);
    assert forall|j: int| 0 <= j && j + len <= a.len() implies #[trigger] occurs_at(
        whole,
        separator,
        j,
    ) == occurs_at(a, separator, j) by {
        assert(whole.subrange(j, j + len) =~= a.subrange(j, j + len));
    }
    match find_from(a, separator, 0) {
        Some(at) => {
            assert(occurs_at(whole, separator, at));
            assert(find_from(whole, separator, 0) == Some(at));
            let rest = a.skip(at + len);
            assert forall|j: int|
                0 <= j < rest.len() && j + separator.len() > rest.len()
                    implies !#[trigger] occurs_at(
                rest + separator,
                separator,
                j,
            ) by {
                let k = at + len + j;
                assert((rest + separator).subrange(j, j + len) =~= (a + separator).subrange(
                    k,
                    k + len,
                ));
                assert(!occurs_at(a + separator, separator, k));
            }
            splitting_goes_part_by_part(rest, b, separator);
            assert(whole.take(at) =~= a.take(at));
            assert(whole.skip(at + len) =~= rest + separator + b);
            assert(split_on(whole, separator) =~= split_on(a, separator) + split_on(b, separator));
        },
        None => {
            let at = a.len() as int;
            assert(whole.subrange(at, at + len) =~= separator);
            assert(occurs_at(whole, separator, at));
            assert forall|j: int| 0 <= j < at implies !occurs_at(whole, separator, j) by {
                if j + len > at {
                    assert(!occurs_at(a + separator, separator, j));
                    assert(whole.subrange(j, j + len) =~= (a + separator).subrange(j, j + len));
                } else {
                    assert(occurs_at(whole, separator, j) == occurs_at(a, separator, j));
                }
            }
            assert(find_from(whole, separator, 0) == Some(at));
            assert(whole.take(at) =~= a);
            assert(whole.skip(at + len) =~= b);
            assert(split_on(whole, separator) =~= split_on(a, separator) + split_on(b, separator));
        },
    }
}

/// No piece holds a separator.
pub proof fn pieces_hold_no_separator(text: Seq<char>, separator: Seq<char>, i: int, at: int)
    requires
        separator.len() > 0,
        0 <= i < split_on(text, separator).len(),
    ensures
        !occurs_at(split_on(text, separator)[i], separator, at),
    decreases text.len(),
{
    find_from_is_first(text, separator, 0);
    match find_from(text, separator, 0) {
        Some(first) => {
            let rest = text.skip(first + separator.len());
            if i > 0 {
                pieces_hold_no_separator(rest, separator, i - 1, at);
            } else if occurs_at(text.take(first), separator, at) {
                assert(text.take(first).subrange(at, at + separator.len()) =~= text.subrange(
                    at,
                    at + separator.len(),
                ));
                assert(occurs_at(text, separator, at));
            }
        },
        None => {},
    }
}

/// Joining goes part by part, and one part alone stays as it is.
pub proof fn joining_goes_part_by_part(
    a: Seq<Seq<char>>,
    b: Seq<Seq<char>>,
    separator: Seq<char>,
)
    requires
        a.len() > 0,
        b.len() > 0,
    ensures
        joined(a + b, separator) == joined(a, separator) + separator + joined(b, separator),
        a.len() == 1 ==> joined(a, separator) == a[0],
    decreases b.len(),
{
    let all = a + b;
    assert(all.last() == b.last());
    if b.len() == 1 {
        assert(all.drop_last() =~= a);
        assert(joined(all, separator) =~= joined(a, separator) + separator + joined(b, separator));
    } else {
        assert(all.drop_last() =~= a + b.drop_last());
        joining_goes_part_by_part(a, b.drop_last(), separator);
        assert(joined(all, separator) =~= joined(a, separator) + separator + joined(b, separator));
    }
}

/// What begins a text is cut off up to the first character that is no white
/// space.
proof fn trim_start_cuts(text: Seq<char>) -> (from: int)
    ensures
        0 <= from <= text.len(),
        trim_start(text) == text.skip(from),
        forall|i: int| 0 <= i < from ==> is_space(#[trigger] text[i]),
        from < text.len() ==> !is_space(text[from]),
    decreases text.len(),
{
    if text.len() > 0 && is_space(text[0]) {
        let rest = text.skip(1);
        let from = 1 + trim_start_cuts(rest);
        assert(text.skip(from) =~= rest.skip(from - 1));
        assert forall|i: int| 0 <= i < from implies is_space(#[trigger] text[i]) by {
            if i > 0 {
                assert(rest[i - 1] == text[i]);
            }
        }
        from
    } else {
        assert(text.skip(0) =~= text);
        0
    }
}

/// What ends a text is cut off from behind the last character that is no white
/// space.
proof fn trim_end_cuts(text: Seq<char>) -> (to: int)
    ensures
        0 <= to <= text.len(),
        trim_end(text) == text.take(to),
        forall|i: int| to <= i < text.len() ==> is_space(#[trigger] text[i]),
        to > 0 ==> !is_space(text[to - 1]),
    decreases text.len(),
{
    if text.len() > 0 && is_space(text.last()) {
        let rest = text.drop_last();
        let to = trim_end_cuts(rest);
        assert(text.take(to) =~= rest.take(to));
        assert forall|i: int| to <= i < text.len() implies is_space(#[trigger] text[i]) by {
            if i < rest.len() {
                assert(rest[i] == text[i]);
            }
        }
        to
    } else {
        assert(text.take(text.len() as int) =~= text);
        text.len() as int
    }
}

/// Trimming cuts off white space at both ends, all of it, and nothing else.
pub proof fn trimming_cuts_white_space(text: Seq<char>) -> (kept: (int, int))
    ensures
        0 <= kept.0 <= kept.1 <= text.len(),
        trim(text) == text.subrange(kept.0, kept.1),
        forall|i: int| 0 <= i < kept.0 ==> is_space(#[trigger] text[i]),
        forall|i: int| kept.1 <= i < text.len() ==> is_space(#[trigger] text[i]),
        kept.0 < kept.1 ==> !is_space(text[kept.0]) && !is_space(text[kept.1 - 1]),
{
    let from = trim_start_cuts(text);
    let rest = text.skip(from);
    let len = trim_end_cuts(rest);
    assert(trim(text) =~= text.subrange(from, from + len));
    assert forall|i: int| from + len <= i < text.len() implies is_space(#[trigger] text[i]) by {
        assert(rest[i - from] == text[i]);
    }
    if len > 0 {
        assert(rest[len - 1] == text[from + len - 1]);
    }
    (from, from + len)
}

/// A text holds what it is put together from.
pub proof fn parts_are_contained(front: Seq<char>, part: Seq<char>, back: Seq<char>)
    ensures
        contains_text(front + part + back, part),
{
    let at = front.len() as int;
    assert((front + part + back).subrange(at, at + part.len()) =~= part);
    assert(occurs_at(front + part + back, part, at));
}

/// A pattern is contained exactly if it stands somewhere, character by
/// character.
pub proof fn containing_means_standing_somewhere(text: Seq<char>, pattern: Seq<char>)
    ensures
        contains_text(text, pattern) <==> exists|at: int|
            0 <= at && at + pattern.len() <= text.len() && #[trigger] text.subrange(
                at,
                at + pattern.len(),
            ) == pattern,
{
    if contains_text(text, pattern) {
        let at = choose|at: int| occurs_at(text, pattern, at);
        assert(text.subrange(at, at + pattern.len()) == pattern);
    }
    if exists|at: int|
        0 <= at && at + pattern.len() <= text.len() && #[trigger] text.subrange(
            at,
            at + pattern.len(),
        ) == pattern {
        let at = choose|at: int|
            0 <= at && at + pattern.len() <= text.len() && #[trigger] text.subrange(
                at,
                at + pattern.len(),
            ) == pattern;
        assert(occurs_at(text, pattern, at));
    }
}

} // verus!
