//! License expressions: which of them a set of allowed licenses accepts.

use vstd::prelude::*;

use crate::select::filter_of_none;
use crate::text::{
    contains_text, ends_at_separator, ends_clear_of, find_from_is_first, is_space, joined,
    occurs_at, same_chars, split_chars, split_on, split_on_is_nonempty,
    splitting_goes_part_by_part, splitting_undoes_joining, to_chars, trim, trim_chars,
    trimming_keeps_trimmed,
};

verus! {

/// Every character but the parentheses.
pub open spec fn is_no_parenthesis() -> spec_fn(char) -> bool {
    |c: char| c != '(' && c != ')'
}

/// `text` without its parentheses.
pub open spec fn without_parentheses(text: Seq<char>) -> Seq<char> {
    text.filter(is_no_parenthesis())
}

/// Some identifier of `part`, in which `/` separates them, is allowed.
pub open spec fn part_allowed(part: Seq<char>, allowed: Seq<Seq<char>>) -> bool {
    exists|j: int|
        0 <= j < split_on(part, "/"@).len() && allowed.contains(
            trim(#[trigger] split_on(part, "/"@)[j]),
        )
}

/// Some alternative of `conjunct`, in which `OR` separates them, is allowed.
pub open spec fn conjunct_allowed(conjunct: Seq<char>, allowed: Seq<Seq<char>>) -> bool {
    exists|i: int|
        0 <= i < split_on(conjunct, " OR "@).len() && part_allowed(
            #[trigger] split_on(conjunct, " OR "@)[i],
            allowed,
        )
}

/// Every conjunct of the expression, in which `AND` separates them, is allowed.
pub open spec fn license_allowed(expression: Seq<char>, allowed: Seq<Seq<char>>) -> bool {
    let conjuncts = split_on(without_parentheses(expression), " AND "@);
    forall|k: int| 0 <= k < conjuncts.len() ==> conjunct_allowed(#[trigger] conjuncts[k], allowed)
}

/// The characters of `text` that are no parentheses.
fn strip_parentheses(text: &str) -> (kept: Vec<char>)
    ensures
        kept@ == without_parentheses(text@),
{
    let chars = to_chars(text);
    let mut kept: Vec<char> = Vec::new();
    proof {
        reveal(Seq::filter);
    }
    assert(kept@ =~= without_parentheses(chars@.take(0)));
    let mut i: usize = 0;
    while i < chars.len()
        invariant
            i <= chars@.len(),
            kept@ == without_parentheses(chars@.take(i as int)),
        decreases chars@.len() - i,
    {
        proof {
            reveal(Seq::filter);
            assert(chars@.take(i + 1).drop_last() =~= chars@.take(i as int));
        }
        if chars[i] != '(' && chars[i] != ')' {
            kept.push(chars[i]);
        }
        i = i + 1;
    }
    assert(chars@.take(i as int) =~= text@);
    kept
}

/// Whether one of `texts` is made of the given characters.
fn holds_chars(texts: &[String], chars: &[char]) -> (found: bool)
    ensures
        found == texts.deep_view().contains(chars@),
{
    let mut i: usize = 0;
    while i < texts.len()
        invariant
            i <= texts@.len(),
            forall|j: int| 0 <= j < i ==> texts.deep_view()[j] != chars@,
        decreases texts@.len() - i,
    {
        let text = to_chars(texts[i].as_str());
        if same_chars(text.as_slice(), chars) {
            assert(texts.deep_view()[i as int] == chars@);
            return true;
        }
        i = i + 1;
    }
    false
}

/// Whether some identifier of `part` is allowed.
fn part_is_acceptable(part: &[char], allowed: &[String]) -> (acceptable: bool)
    ensures
        acceptable == part_allowed(part@, allowed.deep_view()),
{
    proof {
        reveal_strlit("/");
    }
    let slash = to_chars("/");
    let ids = split_chars(part, slash.as_slice());
    let ghost texts = split_on(part@, "/"@);
    let mut j: usize = 0;
    while j < ids.len()
        invariant
            j <= ids@.len(),
            ids@.len() == texts.len(),
            texts == split_on(part@, "/"@),
            texts == ids@.map_values(|p: Vec<char>| p@),
            forall|m: int|
                0 <= m < j ==> !allowed.deep_view().contains(trim(#[trigger] texts[m])),
        decreases ids@.len() - j,
    {
        let id = trim_chars(ids[j].as_slice());
        assert(texts[j as int] == ids@[j as int]@);
        if holds_chars(allowed, id.as_slice()) {
            return true;
        }
        j = j + 1;
    }
    false
}

/// Whether some alternative of `conjunct` is allowed.
fn conjunct_is_acceptable(conjunct: &[char], allowed: &[String]) -> (acceptable: bool)
    ensures
        acceptable == conjunct_allowed(conjunct@, allowed.deep_view()),
{
    proof {
        reveal_strlit(" OR ");
    }
    let or = to_chars(" OR ");
    let parts = split_chars(conjunct, or.as_slice());
    let ghost texts = split_on(conjunct@, " OR "@);
    let mut i: usize = 0;
    while i < parts.len()
        invariant
            i <= parts@.len(),
            parts@.len() == texts.len(),
            texts == split_on(conjunct@, " OR "@),
            texts == parts@.map_values(|p: Vec<char>| p@),
            forall|m: int| 0 <= m < i ==> !part_allowed(#[trigger] texts[m], allowed.deep_view()),
        decreases parts@.len() - i,
    {
        assert(texts[i as int] == parts@[i as int]@);
        if part_is_acceptable(parts[i].as_slice(), allowed) {
            return true;
        }
        i = i + 1;
    }
    false
}

/// Determine whether a license expression satisfies the allowed set.
///
/// Handles SPDX compound expressions:
///   - `OR` / `/` — disjunction: at least one alternative must be allowed
///   - `AND` — conjunction: every component must be allowed
///   - Parentheses are stripped for simplicity
///
/// The expression is accepted if, after splitting on `AND`, every conjunct
/// contains at least one `OR`-alternative that appears in the allowed list.
pub fn license_is_acceptable(license_expr: &str, allowed: &[String]) -> (acceptable: bool)
    ensures
        acceptable == license_allowed(license_expr@, allowed.deep_view()),
{
    proof {
        reveal_strlit(" AND ");
    }
    let cleaned = strip_parentheses(license_expr);
    let and = to_chars(" AND ");
    let conjuncts = split_chars(cleaned.as_slice(), and.as_slice());
    let ghost texts = split_on(without_parentheses(license_expr@), " AND "@);
    let mut k: usize = 0;
    while k < conjuncts.len()
        invariant
            k <= conjuncts@.len(),
            conjuncts@.len() == texts.len(),
            texts == split_on(without_parentheses(license_expr@), " AND "@),
            texts == conjuncts@.map_values(|p: Vec<char>| p@),
            forall|m: int|
                0 <= m < k ==> conjunct_allowed(#[trigger] texts[m], allowed.deep_view()),
        decreases conjuncts@.len() - k,
    {
        assert(texts[k as int] == conjuncts@[k as int]@);
        if !conjunct_is_acceptable(conjuncts[k].as_slice(), allowed) {
            return false;
        }
        k = k + 1;
    }
    true
}

/// A license identifier that no part of an expression can be mistaken for: no
/// white space, no slash, no parenthesis, and not the word that separates
/// conjuncts.
pub open spec fn is_identifier(id: Seq<char>) -> bool {
    &&& id != "AND"@
    &&& forall|i: int|
        0 <= i < id.len() ==> !is_space(#[trigger] id[i]) && id[i] != '/' && id[i] != '(' && id[i]
            != ')'
}

/// The identifiers with a slash between neighbours.
pub open spec fn spell_part() -> spec_fn(Seq<Seq<char>>) -> Seq<char> {
    |ids: Seq<Seq<char>>| joined(ids, "/"@)
}

/// The alternatives with `OR` between neighbours.
pub open spec fn spell_conjunct() -> spec_fn(Seq<Seq<Seq<char>>>) -> Seq<char> {
    |parts: Seq<Seq<Seq<char>>>| joined(parts.map_values(spell_part()), " OR "@)
}

/// The conjuncts with `AND` between neighbours.
pub open spec fn spell_license(conjuncts: Seq<Seq<Seq<Seq<char>>>>) -> Seq<char> {
    joined(conjuncts.map_values(spell_conjunct()), " AND "@)
}

/// The identifiers of an alternative, of which there is one at least.
pub open spec fn well_formed_part(ids: Seq<Seq<char>>) -> bool {
    &&& ids.len() > 0
    &&& forall|i: int| 0 <= i < ids.len() ==> is_identifier(#[trigger] ids[i])
}

/// The alternatives of a conjunct, of which there is one at least.
pub open spec fn well_formed_conjunct(parts: Seq<Seq<Seq<char>>>) -> bool {
    &&& parts.len() > 0
    &&& forall|i: int| 0 <= i < parts.len() ==> well_formed_part(#[trigger] parts[i])
}

/// The conjuncts of an expression, of which there is one at least.
pub open spec fn well_formed_license(conjuncts: Seq<Seq<Seq<Seq<char>>>>) -> bool {
    &&& conjuncts.len() > 0
    &&& forall|i: int| 0 <= i < conjuncts.len() ==> well_formed_conjunct(#[trigger] conjuncts[i])
}

/// One of the identifiers is allowed.
pub open spec fn some_identifier_allowed(ids: Seq<Seq<char>>, allowed: Seq<Seq<char>>) -> bool {
    exists|i: int| 0 <= i < ids.len() && allowed.contains(#[trigger] ids[i])
}

/// One of the alternatives holds an identifier that is allowed.
pub open spec fn some_part_allowed(
    parts: Seq<Seq<Seq<char>>>,
    allowed: Seq<Seq<char>>,
) -> bool {
    exists|i: int| 0 <= i < parts.len() && some_identifier_allowed(#[trigger] parts[i], allowed)
}

/// Every conjunct has an alternative with an identifier that is allowed.
pub open spec fn every_conjunct_allowed(
    conjuncts: Seq<Seq<Seq<Seq<char>>>>,
    allowed: Seq<Seq<char>>,
) -> bool {
    forall|i: int| 0 <= i < conjuncts.len() ==> some_part_allowed(#[trigger] conjuncts[i], allowed)
}

/// Every character of `text` is one of a part or of the separator.
proof fn joined_chars(parts: Seq<Seq<char>>, separator: Seq<char>, c: char)
    requires
        !separator.contains(c),
        forall|i: int| 0 <= i < parts.len() ==> !(#[trigger] parts[i]).contains(c),
    ensures
        !joined(parts, separator).contains(c),
    decreases parts.len(),
{
    if parts.len() > 1 {
        assert forall|i: int| 0 <= i < parts.drop_last().len() implies !(
        #[trigger] parts.drop_last()[i]).contains(c) by {
            assert(parts.drop_last()[i] == parts[i]);
        }
        joined_chars(parts.drop_last(), separator, c);
        let front = joined(parts.drop_last(), separator);
        let last = parts.last();
        let text = front + separator + last;
        assert(!last.contains(c));
        assert forall|k: int| 0 <= k < text.len() implies text[k] != c by {
            if k < front.len() {
                assert(front[k] != c);
            } else if k < front.len() + separator.len() {
                assert(separator[k - front.len()] != c);
            } else {
                assert(last[k - front.len() - separator.len()] != c);
            }
        }
    } else if parts.len() == 1 {
        assert(!parts[0].contains(c));
    }
}

/// A separator cannot begin within a part that lacks its first character.
proof fn part_lacks_separator(part: Seq<char>, separator: Seq<char>)
    requires
        separator.len() > 0,
        !part.contains(separator[0]),
    ensures
        ends_at_separator(part, separator),
{
    assert forall|j: int| 0 <= j < part.len() implies !#[trigger] occurs_at(
        part + separator,
        separator,
        j,
    ) by {
        assert((part + separator).subrange(j, j + separator.len())[0] == part[j]);
    }
}

/// An alternative holds no space, and is not the word that separates conjuncts.
proof fn part_is_plain(ids: Seq<Seq<char>>)
    requires
        well_formed_part(ids),
    ensures
        !joined(ids, "/"@).contains(' '),
        joined(ids, "/"@) != "AND"@,
{
    reveal_strlit("/");
    reveal_strlit("AND");
    assert forall|i: int| 0 <= i < ids.len() implies !(#[trigger] ids[i]).contains(' ') by {
        assert(is_identifier(ids[i]));
    }
    joined_chars(ids, "/"@, ' ');
    assert(is_identifier(ids[0]));
    if ids.len() > 1 {
        let front = joined(ids.drop_last(), "/"@);
        let text = joined(ids, "/"@);
        assert(text[front.len() as int] == '/');
        assert("AND"@.len() == 3 && "AND"@[0] == 'A' && "AND"@[1] == 'N' && "AND"@[2] == 'D');
        assert(text != "AND"@);
    } else {
        assert(joined(ids, "/"@) == ids[0]);
    }
}

/// Before `tail`, which begins with a space, no `AND` begins within a conjunct.
proof fn conjunct_lacks_and(texts: Seq<Seq<char>>, tail: Seq<char>)
    requires
        texts.len() > 0,
        tail.len() > 0,
        tail[0] == ' ',
        forall|i: int|
            0 <= i < texts.len() ==> !(#[trigger] texts[i]).contains(' ') && texts[i] != "AND"@,
    ensures
        forall|j: int|
            0 <= j < joined(texts, " OR "@).len() ==> !#[trigger] occurs_at(
                joined(texts, " OR "@) + tail,
                " AND "@,
                j,
            ),
    decreases texts.len(),
{
    reveal_strlit(" OR ");
    reveal_strlit(" AND ");
    reveal_strlit("AND");
    let and = " AND "@;
    let text = joined(texts, " OR "@);
    let whole = text + tail;
    let last = texts.last();
    assert(!last.contains(' '));
    if texts.len() == 1 {
        assert forall|j: int| 0 <= j < text.len() implies !#[trigger] occurs_at(whole, and, j) by {
            assert(texts[0].contains(texts[0][j]));
            if occurs_at(whole, and, j) {
                assert(whole.subrange(j, j + and.len())[0] == whole[j]);
            }
        }
    } else {
        let shorter = texts.drop_last();
        let front = joined(shorter, " OR "@);
        let behind = " OR "@ + last + tail;
        assert forall|i: int| 0 <= i < shorter.len() implies !(#[trigger] shorter[i]).contains(' ')
            && shorter[i] != "AND"@ by {
            assert(shorter[i] == texts[i]);
        }
        conjunct_lacks_and(shorter, behind);
        assert(whole =~= front + behind);
        assert forall|j: int| 0 <= j < text.len() implies !#[trigger] occurs_at(whole, and, j) by {
            if occurs_at(whole, and, j) {
                let found = whole.subrange(j, j + and.len());
                assert(found[0] == whole[j] && found[1] == whole[j + 1] && found[2] == whole[j + 2]
                    && found[3] == whole[j + 3] && found[4] == whole[j + 4]);
                assert(and[0] == ' ' && and[1] == 'A' && and[2] == 'N' && and[3] == 'D' && and[4]
                    == ' ');
                if j < front.len() {
                    assert(occurs_at(front + behind, and, j));
                } else if j >= front.len() + 4 {
                    assert(whole[j] == last[j - front.len() - 4]);
                    assert(last.contains(whole[j]));
                } else {
                    assert(" OR "@[1] == 'O' && " OR "@[2] == 'R');
                    assert(j == front.len() + 3);
                    let at = front.len() as int + 4;
                    if last.len() < 3 {
                        assert(whole[at + last.len()] == tail[0]);
                    } else if last.len() == 3 {
                        assert(last[0] == whole[at] && last[1] == whole[at + 1] && last[2]
                            == whole[at + 2]);
                        assert(last =~= "AND"@);
                    } else {
                        assert(last[3] == whole[at + 3]);
                        assert(last.contains(last[3]));
                    }
                }
            }
        }
    }
}

/// An alternative is allowed exactly where one of its identifiers is.
proof fn part_means_some(ids: Seq<Seq<char>>, allowed: Seq<Seq<char>>)
    requires
        well_formed_part(ids),
    ensures
        part_allowed(joined(ids, "/"@), allowed) == some_identifier_allowed(ids, allowed),
{
    reveal_strlit("/");
    assert forall|i: int| 0 <= i < ids.len() implies ends_at_separator(#[trigger] ids[i], "/"@)
        && trim(ids[i]) == ids[i] by {
        assert(is_identifier(ids[i]));
        part_lacks_separator(ids[i], "/"@);
        trimming_keeps_trimmed(ids[i]);
    }
    splitting_undoes_joining(ids, "/"@);
    let pieces = split_on(joined(ids, "/"@), "/"@);
    if some_identifier_allowed(ids, allowed) {
        let i = choose|i: int| 0 <= i < ids.len() && allowed.contains(#[trigger] ids[i]);
        assert(pieces[i] == ids[i]);
    }
}

/// A conjunct is allowed exactly where one of its alternatives is.
proof fn conjunct_means_some(parts: Seq<Seq<Seq<char>>>, allowed: Seq<Seq<char>>)
    requires
        well_formed_conjunct(parts),
    ensures
        conjunct_allowed(spell_conjunct()(parts), allowed) == some_part_allowed(parts, allowed),
        ends_at_separator(spell_conjunct()(parts), " AND "@),
{
    reveal_strlit(" OR ");
    reveal_strlit(" AND ");
    let texts = parts.map_values(spell_part());
    assert forall|i: int| 0 <= i < texts.len() implies ends_at_separator(
        #[trigger] texts[i],
        " OR "@,
    ) && !texts[i].contains(' ') && texts[i] != "AND"@ && part_allowed(texts[i], allowed)
        == some_identifier_allowed(parts[i], allowed) by {
        part_is_plain(parts[i]);
        part_means_some(parts[i], allowed);
        part_lacks_separator(texts[i], " OR "@);
    }
    splitting_undoes_joining(texts, " OR "@);
    conjunct_lacks_and(texts, " AND "@);
    let pieces = split_on(spell_conjunct()(parts), " OR "@);
    assert(pieces == texts);
    if some_part_allowed(parts, allowed) {
        let i = choose|i: int|
            0 <= i < parts.len() && some_identifier_allowed(#[trigger] parts[i], allowed);
        assert(part_allowed(pieces[i], allowed));
    }
    if conjunct_allowed(spell_conjunct()(parts), allowed) {
        let i = choose|i: int|
            0 <= i < pieces.len() && part_allowed(#[trigger] pieces[i], allowed);
        assert(some_identifier_allowed(parts[i], allowed));
    }
}

/// What an expression means: one that spells out conjuncts of alternatives of
/// identifiers, with parentheses anywhere, is accepted exactly where every
/// conjunct has an alternative with an identifier that is allowed.
pub proof fn meaning_of_expressions(
    expression: Seq<char>,
    conjuncts: Seq<Seq<Seq<Seq<char>>>>,
    allowed: Seq<Seq<char>>,
)
    requires
        well_formed_license(conjuncts),
        without_parentheses(expression) == spell_license(conjuncts),
    ensures
        license_allowed(expression, allowed) == every_conjunct_allowed(conjuncts, allowed),
{
    reveal_strlit(" AND ");
    let texts = conjuncts.map_values(spell_conjunct());
    assert forall|i: int| 0 <= i < texts.len() implies ends_at_separator(
        #[trigger] texts[i],
        " AND "@,
    ) && conjunct_allowed(texts[i], allowed) == some_part_allowed(conjuncts[i], allowed) by {
        conjunct_means_some(conjuncts[i], allowed);
    }
    splitting_undoes_joining(texts, " AND "@);
    let pieces = split_on(without_parentheses(expression), " AND "@);
    assert(pieces == texts);
    if license_allowed(expression, allowed) {
        assert forall|i: int| 0 <= i < conjuncts.len() implies some_part_allowed(
            #[trigger] conjuncts[i],
            allowed,
        ) by {
            assert(conjunct_allowed(pieces[i], allowed));
        }
    }
    if every_conjunct_allowed(conjuncts, allowed) {
        assert forall|k: int| 0 <= k < pieces.len() implies conjunct_allowed(
            #[trigger] pieces[k],
            allowed,
        ) by {
            assert(some_part_allowed(conjuncts[k], allowed));
        }
    }
}

/// A single identifier is accepted exactly where it is allowed.
pub proof fn single_identifier(id: Seq<char>, allowed: Seq<Seq<char>>)
    requires
        is_identifier(id),
    ensures
        license_allowed(id, allowed) == allowed.contains(id),
{
    let conjuncts = seq![seq![seq![id]]];
    assert(conjuncts[0][0][0] == id);
    nothing_to_strip(id);
    assert(conjuncts[0].map_values(spell_part())[0] == id);
    assert(conjuncts.map_values(spell_conjunct())[0] == id);
    assert(spell_license(conjuncts) == id);
    assert forall|i: int| 0 <= i < conjuncts.len() implies well_formed_conjunct(
        #[trigger] conjuncts[i],
    ) by {
        assert(well_formed_part(conjuncts[0][0]));
    }
    meaning_of_expressions(id, conjuncts, allowed);
    if allowed.contains(id) {
        assert(some_identifier_allowed(conjuncts[0][0], allowed));
        assert(some_part_allowed(conjuncts[0], allowed));
    } else {
        assert(!some_identifier_allowed(conjuncts[0][0], allowed));
        assert(!some_part_allowed(conjuncts[0], allowed));
    }
}

/// Text without parentheses stays as it is.
pub proof fn nothing_to_strip(text: Seq<char>)
    requires
        forall|i: int| 0 <= i < text.len() ==> #[trigger] text[i] != '(' && text[i] != ')',
    ensures
        without_parentheses(text) == text,
    decreases text.len(),
{
    reveal(Seq::filter);
    if text.len() > 0 {
        assert forall|i: int| 0 <= i < text.drop_last().len() implies #[trigger] text.drop_last()[i]
            != '(' && text.drop_last()[i] != ')' by {
            assert(text.drop_last()[i] == text[i]);
        }
        nothing_to_strip(text.drop_last());
        assert(text.drop_last().push(text.last()) =~= text);
    }
}

/// What is left of a text has no parentheses.
pub proof fn stripped_has_none(text: Seq<char>)
    ensures
        forall|i: int|
            0 <= i < without_parentheses(text).len() ==> #[trigger] without_parentheses(text)[i]
                != '(' && without_parentheses(text)[i] != ')',
    decreases text.len(),
{
    reveal(Seq::filter);
    if text.len() > 0 {
        stripped_has_none(text.drop_last());
    }
}

/// Parentheses make no difference.
pub proof fn parentheses_are_ignored(expression: Seq<char>, allowed: Seq<Seq<char>>)
    ensures
        license_allowed(without_parentheses(expression), allowed) == license_allowed(
            expression,
            allowed,
        ),
{
    stripped_has_none(expression);
    nothing_to_strip(without_parentheses(expression));
}

/// A separator of words cannot reach from a text into a separator that follows
/// it, unless the text ends with all of it but the last space.
proof fn word_separators_are_clear(part: Seq<char>, separator: Seq<char>)
    requires
        separator.len() > 1,
        separator[0] == ' ',
        separator.last() == ' ',
        forall|i: int| 0 < i < separator.len() - 1 ==> #[trigger] separator[i] != ' ',
        !separator.drop_last().is_suffix_of(part),
    ensures
        ends_clear_of(part, separator),
{
    let whole = part + separator;
    let len = separator.len() as int;
    assert forall|j: int|
        0 <= j < part.len() && j + separator.len() > part.len() implies !#[trigger] occurs_at(
        whole,
        separator,
        j,
    ) by {
        if occurs_at(whole, separator, j) {
            let k = part.len() - j;
            assert(whole.subrange(j, j + len)[k] == whole[part.len() as int]);
            assert(separator[k] == ' ');
            assert(k == len - 1);
            assert forall|i: int| 0 <= i < len - 1 implies separator.drop_last()[i] == part[j
                + i] by {
                assert(whole.subrange(j, j + len)[i] == whole[j + i]);
            }
            assert(part.subrange(j, part.len() as int) =~= separator.drop_last());
        }
    }
}

/// What is left of two texts is what is left of the one, then of the other.
pub proof fn stripping_goes_part_by_part(a: Seq<char>, b: Seq<char>)
    ensures
        without_parentheses(a + b) == without_parentheses(a) + without_parentheses(b),
{
    Seq::filter_distributes_over_add(a, b, is_no_parenthesis());
}

/// `AND` means both: two expressions with `AND` between them are accepted
/// exactly if each of them is. The first of them must not end with the word
/// itself, which would then be the separator.
pub proof fn and_means_both(a: Seq<char>, b: Seq<char>, allowed: Seq<Seq<char>>)
    requires
        !" AND"@.is_suffix_of(without_parentheses(a)),
    ensures
        license_allowed(a + " AND "@ + b, allowed) == (license_allowed(a, allowed)
            && license_allowed(b, allowed)),
{
    reveal_strlit(" AND ");
    reveal_strlit(" AND");
    let and = " AND "@;
    let first = without_parentheses(a);
    let second = without_parentheses(b);
    nothing_to_strip(and);
    stripping_goes_part_by_part(a, and);
    stripping_goes_part_by_part(a + and, b);
    assert(and.drop_last() =~= " AND"@);
    word_separators_are_clear(first, and);
    splitting_goes_part_by_part(first, second, and);
    let x = split_on(first, and);
    let y = split_on(second, and);
    let all = split_on(without_parentheses(a + and + b), and);
    assert(all == x + y);
    if license_allowed(a + and + b, allowed) {
        assert forall|k: int| 0 <= k < x.len() implies conjunct_allowed(
            #[trigger] x[k],
            allowed,
        ) by {
            assert(conjunct_allowed(all[k], allowed));
        }
        assert forall|k: int| 0 <= k < y.len() implies conjunct_allowed(
            #[trigger] y[k],
            allowed,
        ) by {
            assert(conjunct_allowed(all[x.len() + k], allowed));
        }
    }
    if license_allowed(a, allowed) && license_allowed(b, allowed) {
        assert forall|k: int| 0 <= k < all.len() implies conjunct_allowed(
            #[trigger] all[k],
            allowed,
        ) by {
            if k < x.len() {
                assert(conjunct_allowed(x[k], allowed));
            } else {
                assert(conjunct_allowed(y[k - x.len()], allowed));
            }
        }
    }
}

/// `OR` means either: a conjunct of two texts with `OR` between them is allowed
/// exactly if one of them is. The first of them must not end with the word
/// itself, which would then be the separator.
pub proof fn or_means_either(a: Seq<char>, b: Seq<char>, allowed: Seq<Seq<char>>)
    requires
        !" OR"@.is_suffix_of(a),
    ensures
        conjunct_allowed(a + " OR "@ + b, allowed) == (conjunct_allowed(a, allowed)
            || conjunct_allowed(b, allowed)),
{
    reveal_strlit(" OR ");
    reveal_strlit(" OR");
    let or = " OR "@;
    assert(or.drop_last() =~= " OR"@);
    word_separators_are_clear(a, or);
    splitting_goes_part_by_part(a, b, or);
    let x = split_on(a, or);
    let y = split_on(b, or);
    let all = split_on(a + or + b, or);
    if conjunct_allowed(a, allowed) {
        let i = choose|i: int| 0 <= i < x.len() && part_allowed(#[trigger] x[i], allowed);
        assert(part_allowed(all[i], allowed));
    }
    if conjunct_allowed(b, allowed) {
        let i = choose|i: int| 0 <= i < y.len() && part_allowed(#[trigger] y[i], allowed);
        assert(part_allowed(all[x.len() + i], allowed));
    }
    if conjunct_allowed(a + or + b, allowed) {
        let i = choose|i: int| 0 <= i < all.len() && part_allowed(#[trigger] all[i], allowed);
        if i < x.len() {
            assert(part_allowed(x[i], allowed));
        } else {
            assert(part_allowed(y[i - x.len()], allowed));
        }
    }
}

/// Allowing more licenses accepts no fewer expressions.
pub proof fn allowing_more_accepts_more(
    expression: Seq<char>,
    fewer: Seq<Seq<char>>,
    more: Seq<Seq<char>>,
)
    requires
        forall|id: Seq<char>| fewer.contains(id) ==> more.contains(id),
        license_allowed(expression, fewer),
    ensures
        license_allowed(expression, more),
{
    let conjuncts = split_on(without_parentheses(expression), " AND "@);
    assert forall|k: int| 0 <= k < conjuncts.len() implies conjunct_allowed(
        #[trigger] conjuncts[k],
        more,
    ) by {
        assert(conjunct_allowed(conjuncts[k], fewer));
        let parts = split_on(conjuncts[k], " OR "@);
        let i = choose|i: int| 0 <= i < parts.len() && part_allowed(#[trigger] parts[i], fewer);
        let ids = split_on(parts[i], "/"@);
        let j = choose|j: int| 0 <= j < ids.len() && fewer.contains(trim(#[trigger] ids[j]));
        assert(more.contains(trim(ids[j])));
        assert(part_allowed(parts[i], more));
    }
}

/// Where nothing is allowed, no expression is accepted.
pub proof fn nothing_allowed_accepts_nothing(expression: Seq<char>)
    ensures
        !license_allowed(expression, Seq::empty()),
{
    let conjuncts = split_on(without_parentheses(expression), " AND "@);
    split_on_is_nonempty(without_parentheses(expression), " AND "@);
    assert(!conjunct_allowed(conjuncts[0], Seq::empty()));
}

/// A slash means either: a part of two texts with a slash between them is
/// allowed exactly if one of them is.
pub proof fn slash_means_either(a: Seq<char>, b: Seq<char>, allowed: Seq<Seq<char>>)
    ensures
        part_allowed(a + "/"@ + b, allowed) == (part_allowed(a, allowed) || part_allowed(
            b,
            allowed,
        )),
{
    reveal_strlit("/");
    splitting_goes_part_by_part(a, b, "/"@);
    let x = split_on(a, "/"@);
    let y = split_on(b, "/"@);
    let all = split_on(a + "/"@ + b, "/"@);
    if part_allowed(a, allowed) {
        let i = choose|i: int| 0 <= i < x.len() && allowed.contains(trim(#[trigger] x[i]));
        assert(allowed.contains(trim(all[i])));
    }
    if part_allowed(b, allowed) {
        let i = choose|i: int| 0 <= i < y.len() && allowed.contains(trim(#[trigger] y[i]));
        assert(allowed.contains(trim(all[x.len() + i])));
    }
    if part_allowed(a + "/"@ + b, allowed) {
        let i = choose|i: int| 0 <= i < all.len() && allowed.contains(trim(#[trigger] all[i]));
        if i < x.len() {
            assert(allowed.contains(trim(x[i])));
        } else {
            assert(allowed.contains(trim(y[i - x.len()])));
        }
    }
}

/// Text without a separator is one piece.
proof fn one_piece(text: Seq<char>, separator: Seq<char>)
    requires
        !contains_text(text, separator),
    ensures
        split_on(text, separator) == seq![text],
{
    find_from_is_first(text, separator, 0);
}

/// An expression without `AND` is a single conjunct.
pub proof fn without_and_one_conjunct(expression: Seq<char>, allowed: Seq<Seq<char>>)
    requires
        !contains_text(without_parentheses(expression), " AND "@),
    ensures
        license_allowed(expression, allowed) == conjunct_allowed(
            without_parentheses(expression),
            allowed,
        ),
{
    let text = without_parentheses(expression);
    one_piece(text, " AND "@);
    assert(split_on(text, " AND "@)[0] == text);
}

/// A conjunct without `OR` is a single part.
pub proof fn without_or_one_part(conjunct: Seq<char>, allowed: Seq<Seq<char>>)
    requires
        !contains_text(conjunct, " OR "@),
    ensures
        conjunct_allowed(conjunct, allowed) == part_allowed(conjunct, allowed),
{
    one_piece(conjunct, " OR "@);
    assert(split_on(conjunct, " OR "@)[0] == conjunct);
}

/// A part without a slash is allowed exactly if it is listed, the white space
/// around it left out.
pub proof fn without_slash_one_identifier(part: Seq<char>, allowed: Seq<Seq<char>>)
    requires
        !contains_text(part, "/"@),
    ensures
        part_allowed(part, allowed) == allowed.contains(trim(part)),
{
    one_piece(part, "/"@);
    assert(split_on(part, "/"@)[0] == part);
}

/// An expression without separators is accepted exactly if it is listed, its
/// parentheses and the white space around it left out.
pub proof fn without_separators(expression: Seq<char>, allowed: Seq<Seq<char>>)
    requires
        !contains_text(without_parentheses(expression), " AND "@),
        !contains_text(without_parentheses(expression), " OR "@),
        !contains_text(without_parentheses(expression), "/"@),
    ensures
        license_allowed(expression, allowed) == allowed.contains(
            trim(without_parentheses(expression)),
        ),
{
    let text = without_parentheses(expression);
    without_and_one_conjunct(expression, allowed);
    without_or_one_part(text, allowed);
    without_slash_one_identifier(text, allowed);
}

/// `OR` means either, for whole expressions: without an `AND`, two expressions
/// with `OR` between them are accepted exactly if one of them is.
pub proof fn either_expression(a: Seq<char>, b: Seq<char>, allowed: Seq<Seq<char>>)
    requires
        !contains_text(without_parentheses(a + " OR "@ + b), " AND "@),
        !" OR"@.is_suffix_of(without_parentheses(a)),
    ensures
        license_allowed(a + " OR "@ + b, allowed) == (license_allowed(a, allowed)
            || license_allowed(b, allowed)),
{
    reveal_strlit(" OR ");
    let or = " OR "@;
    let x = without_parentheses(a);
    let y = without_parentheses(b);
    nothing_to_strip(or);
    stripping_goes_part_by_part(a, or);
    stripping_goes_part_by_part(a + or, b);
    let whole = x + or + y;
    assert(whole == without_parentheses(a + or + b));
    if contains_text(x, " AND "@) {
        let at = choose|at: int| occurs_at(x, " AND "@, at);
        assert(whole.subrange(at, at + " AND "@.len()) =~= x.subrange(at, at + " AND "@.len()));
        assert(occurs_at(whole, " AND "@, at));
    }
    if contains_text(y, " AND "@) {
        let at = choose|at: int| occurs_at(y, " AND "@, at);
        let shifted = x.len() + or.len() + at;
        assert(whole.subrange(shifted, shifted + " AND "@.len()) =~= y.subrange(
            at,
            at + " AND "@.len(),
        ));
        assert(occurs_at(whole, " AND "@, shifted));
    }
    without_and_one_conjunct(a + or + b, allowed);
    without_and_one_conjunct(a, allowed);
    without_and_one_conjunct(b, allowed);
    or_means_either(x, y, allowed);
}

/// A parenthesis leaves nothing behind, not even a space, wherever it stands.
pub proof fn parentheses_leave_nothing(a: Seq<char>, parenthesis: char, b: Seq<char>)
    requires
        parenthesis == '(' || parenthesis == ')',
    ensures
        without_parentheses(a + seq![parenthesis] + b) == without_parentheses(a)
            + without_parentheses(b),
{
    let one = seq![parenthesis];
    stripping_goes_part_by_part(a, one);
    stripping_goes_part_by_part(a + one, b);
    assert forall|i: int| 0 <= i < one.len() implies !is_no_parenthesis()(#[trigger] one[i]) by {}
    filter_of_none(one, is_no_parenthesis());
    assert(without_parentheses(a + one + b) =~= without_parentheses(a) + without_parentheses(b));
}

} // verus!
