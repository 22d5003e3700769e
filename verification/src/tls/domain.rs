//! Canonical DNS names.
//!
//! A name is a sequence of labels separated by dots. Its canonical spelling is in
//! lower case and leaves out the dot that stands for the root, so that two
//! spellings of one name become equal texts.

use vstd::prelude::*;

verus! {

/// The longest name, in characters, without the dot of the root.
pub const MAX_NAME_LEN: usize = 253;

/// The longest label, in characters.
pub const MAX_LABEL_LEN: usize = 63;

/// A valid DNS name in its canonical spelling.
#[derive(Debug, PartialEq, Eq, PartialOrd, Ord, Hash)]
pub struct DomainName {
    text: String,
}

/// Why a text is not a DNS name.
#[derive(Debug, Clone, Copy, PartialEq, Eq, Structural)]
pub enum DomainNameError {
    /// The text holds no label.
    Empty,
    /// A character is none of the letters, digits, hyphens, underscores and dots of
    /// ASCII.
    InvalidCharacter,
    /// The name is longer than `MAX_NAME_LEN` characters.
    TooLong,
    /// A label is empty, is longer than `MAX_LABEL_LEN` characters, or begins or ends
    /// with a hyphen.
    InvalidLabel,
}

/// The lower case of an ASCII letter; every other character stays as it is.
pub open spec fn lower_char(c: char) -> char {
    if 'A' <= c <= 'Z' {
        (c as int + 32) as char
    } else {
        c
    }
}

/// The text with each ASCII letter in lower case.
pub open spec fn lower_case(text: Seq<char>) -> Seq<char> {
    text.map_values(|c: char| lower_char(c))
}

/// The characters that a label is made of.
pub open spec fn is_label_char(c: char) -> bool {
    'a' <= c <= 'z' || 'A' <= c <= 'Z' || '0' <= c <= '9' || c == '-' || c == '_'
}

/// The text without the one dot at its end, if it has one.
pub open spec fn without_root(text: Seq<char>) -> Seq<char> {
    if text.len() > 0 && text.last() == '.' {
        text.drop_last()
    } else {
        text
    }
}

/// The parts of a text that its dots separate, from left to right.
pub open spec fn labels(text: Seq<char>) -> Seq<Seq<char>>
    decreases text.len(),
{
    if text.len() == 0 {
        seq![Seq::empty()]
    } else {
        let before = labels(text.drop_last());
        if text.last() == '.' {
            before.push(Seq::empty())
        } else {
            before.drop_last().push(before.last().push(text.last()))
        }
    }
}

/// A label that a DNS name may hold, as far as its length and its hyphens go.
pub open spec fn is_valid_label(label: Seq<char>) -> bool {
    &&& 0 < label.len() <= MAX_LABEL_LEN
    &&& label[0] != '-'
    &&& label.last() != '-'
}

/// Every character may stand in a name.
pub open spec fn has_only_name_chars(text: Seq<char>) -> bool {
    forall|i: int| 0 <= i < text.len() ==> is_label_char(#[trigger] text[i]) || text[i] == '.'
}

/// Every part between dots is a valid label.
pub open spec fn has_only_valid_labels(text: Seq<char>) -> bool {
    forall|i: int| 0 <= i < labels(text).len() ==> is_valid_label(#[trigger] labels(text)[i])
}

/// The canonical spelling of the name that a text spells, or why it spells none.
pub open spec fn canonical_name(text: Seq<char>) -> Result<Seq<char>, DomainNameError> {
    let name = without_root(text);
    if name.len() == 0 {
        Err(DomainNameError::Empty)
    } else if !has_only_name_chars(name) {
        Err(DomainNameError::InvalidCharacter)
    } else if name.len() > MAX_NAME_LEN {
        Err(DomainNameError::TooLong)
    } else if !has_only_valid_labels(name) {
        Err(DomainNameError::InvalidLabel)
    } else {
        Ok(lower_case(name))
    }
}

/// `str::to_ascii_lowercase` returns a copy of the text in which the letters from
/// `A` to `Z` have become those from `a` to `z`, and every other character, a letter
/// beyond ASCII too, has stayed.
pub assume_specification[ str::to_ascii_lowercase ](text: &str) -> (lower: String)
    ensures
        lower@ == lower_case(text@),
;

proof fn lemma_labels_nonempty(text: Seq<char>)
    ensures
        labels(text).len() > 0,
    decreases text.len(),
{
    if text.len() > 0 {
        lemma_labels_nonempty(text.drop_last());
    }
}

/// Lower case changes no dot, so it acts on each label alone.
proof fn lemma_labels_lower_case(text: Seq<char>)
    ensures
        labels(lower_case(text)) == labels(text).map_values(|label: Seq<char>| lower_case(label)),
    decreases text.len(),
{
    let lower = lower_case(text);
    let each = |label: Seq<char>| lower_case(label);
    if text.len() == 0 {
        assert(lower == Seq::<char>::empty());
        assert(lower_case(Seq::<char>::empty()) == Seq::<char>::empty());
        assert(labels(lower) =~= labels(text).map_values(each));
    } else {
        let init = text.drop_last();
        assert(lower.drop_last() =~= lower_case(init));
        lemma_labels_lower_case(init);
        lemma_labels_nonempty(init);
        let before = labels(init);
        if text.last() == '.' {
            assert(lower_case(Seq::<char>::empty()) =~= Seq::<char>::empty());
        } else {
            assert(lower_case(before.last().push(text.last())) =~= lower_case(before.last()).push(
                lower_char(text.last()),
            ));
        }
        assert(labels(lower) =~= labels(text).map_values(each));
    }
}

proof fn lemma_has_only_valid_labels_lower_case(text: Seq<char>)
    ensures
        has_only_valid_labels(lower_case(text)) == has_only_valid_labels(text),
{
    lemma_labels_lower_case(text);
    let lower = lower_case(text);
    assert forall|i: int| 0 <= i < labels(text).len() implies is_valid_label(
        #[trigger] labels(lower)[i],
    ) == is_valid_label(labels(text)[i]) by {
        assert(labels(lower)[i] == lower_case(labels(text)[i]));
    }
    if has_only_valid_labels(lower) {
        assert forall|i: int| 0 <= i < labels(text).len() implies is_valid_label(
            #[trigger] labels(text)[i],
        ) by {
            assert(is_valid_label(labels(lower)[i]));
        }
    }
}

/// A name whose labels are all valid ends in no dot.
proof fn lemma_valid_labels_end_in_no_dot(text: Seq<char>)
    requires
        text.len() > 0,
        has_only_valid_labels(text),
    ensures
        text.last() != '.',
{
    if text.last() == '.' {
        let last = labels(text).len() - 1;
        assert(labels(text)[last] == Seq::<char>::empty());
        assert(is_valid_label(labels(text)[last]));
    }
}

/// Upper and lower case spell one name: the canonical spelling, and the reason why
/// there is none, do not depend on case.
pub proof fn law_case_is_ignored(text: Seq<char>)
    ensures
        canonical_name(lower_case(text)) == canonical_name(text),
{
    let name = without_root(text);
    let lower = without_root(lower_case(text));
    assert(lower =~= lower_case(name));
    assert(lower_case(lower) =~= lower_case(name));
    lemma_has_only_valid_labels_lower_case(name);
    if has_only_name_chars(lower) {
        assert forall|i: int| 0 <= i < name.len() implies is_label_char(#[trigger] name[i])
            || name[i] == '.' by {
            assert(is_label_char(lower[i]) || lower[i] == '.');
        }
    }
}

/// The dot of the root is optional: with it and without it a text spells one name.
pub proof fn law_root_dot_is_ignored(text: Seq<char>)
    requires
        text.len() > 0,
        text.last() != '.',
    ensures
        canonical_name(text.push('.')) == canonical_name(text),
{
    assert(without_root(text.push('.')) =~= text);
}

/// A canonical spelling spells itself.
pub proof fn law_canonical_is_fixed(text: Seq<char>)
    requires
        canonical_name(text) is Ok,
    ensures
        canonical_name(canonical_name(text)->Ok_0) == canonical_name(text),
{
    let name = without_root(text);
    let lower = lower_case(name);
    law_case_is_ignored(name);
    lemma_valid_labels_end_in_no_dot(name);
    assert(without_root(name) == name);
}

/// A canonical spelling is not empty, fits the length limit, and holds only lower
/// case letters, digits, hyphens, underscores and dots.
pub proof fn law_canonical_alphabet(text: Seq<char>)
    requires
        canonical_name(text) is Ok,
    ensures
        0 < canonical_name(text)->Ok_0.len() <= MAX_NAME_LEN,
        forall|i: int|
            0 <= i < canonical_name(text)->Ok_0.len() ==> {
                let c = #[trigger] canonical_name(text)->Ok_0[i];
                'a' <= c <= 'z' || '0' <= c <= '9' || c == '-' || c == '_' || c == '.'
            },
{
    let name = without_root(text);
    assert forall|i: int| 0 <= i < name.len() implies {
        let c = #[trigger] lower_case(name)[i];
        'a' <= c <= 'z' || '0' <= c <= '9' || c == '-' || c == '_' || c == '.'
    } by {
        assert(is_label_char(name[i]) || name[i] == '.');
    }
}

/// A part of a text between two dots, or between a dot and an end.
spec fn is_part(text: Seq<char>, start: int, end: int) -> bool {
    &&& 0 <= start <= end <= text.len()
    &&& start == 0 || text[start - 1] == '.'
    &&& end == text.len() || text[end] == '.'
    &&& forall|i: int| start <= i < end ==> #[trigger] text[i] != '.'
}

/// Where the part that holds or ends at a position begins.
proof fn lemma_part_start(text: Seq<char>, at: int) -> (start: int)
    requires
        0 <= at <= text.len(),
    ensures
        0 <= start <= at,
        start == 0 || text[start - 1] == '.',
        forall|i: int| start <= i < at ==> #[trigger] text[i] != '.',
    decreases at,
{
    if at == 0 || text[at - 1] == '.' {
        at
    } else {
        lemma_part_start(text, at - 1)
    }
}

/// Where the part that begins at or holds a position ends.
proof fn lemma_part_end(text: Seq<char>, at: int) -> (end: int)
    requires
        0 <= at <= text.len(),
    ensures
        at <= end <= text.len(),
        end == text.len() || text[end] == '.',
        forall|i: int| at <= i < end ==> #[trigger] text[i] != '.',
    decreases text.len() - at,
{
    if at == text.len() || text[at] == '.' {
        at
    } else {
        lemma_part_end(text, at + 1)
    }
}

/// Every label is a part, and the last label is the part at the end.
proof fn lemma_label_is_part(text: Seq<char>, k: int) -> (part: (int, int))
    requires
        0 <= k < labels(text).len(),
    ensures
        is_part(text, part.0, part.1),
        labels(text)[k] == text.subrange(part.0, part.1),
        k == labels(text).len() - 1 <==> part.1 == text.len(),
    decreases text.len(),
{
    if text.len() == 0 {
        assert(text.subrange(0, 0) =~= Seq::<char>::empty());
        (0, 0)
    } else {
        let init = text.drop_last();
        let before = labels(init);
        lemma_labels_nonempty(init);
        if text.last() == '.' {
            if k == before.len() {
                let end = text.len() as int;
                assert(text.subrange(end, end) =~= Seq::<char>::empty());
                (end, end)
            } else {
                let part = lemma_label_is_part(init, k);
                assert(text.subrange(part.0, part.1) =~= init.subrange(part.0, part.1));
                assert(forall|i: int|
                    part.0 <= i < part.1 ==> #[trigger] text[i] == init[i]);
                part
            }
        } else {
            let part = lemma_label_is_part(init, k);
            if k == before.len() - 1 {
                assert(text.subrange(part.0, part.1 + 1) =~= init.subrange(part.0, part.1).push(
                    text.last(),
                ));
                assert(forall|i: int|
                    part.0 <= i < part.1 ==> #[trigger] text[i] == init[i]);
                (part.0, part.1 + 1)
            } else {
                assert(text.subrange(part.0, part.1) =~= init.subrange(part.0, part.1));
                assert(forall|i: int|
                    part.0 <= i < part.1 ==> #[trigger] text[i] == init[i]);
                part
            }
        }
    }
}

/// Every part is a label, and the part at the end is the last label.
proof fn lemma_part_is_label(text: Seq<char>, start: int, end: int) -> (k: int)
    requires
        is_part(text, start, end),
    ensures
        0 <= k < labels(text).len(),
        labels(text)[k] == text.subrange(start, end),
        k == labels(text).len() - 1 <==> end == text.len(),
    decreases text.len(),
{
    if text.len() == 0 {
        assert(text.subrange(0, 0) =~= Seq::<char>::empty());
        0
    } else {
        let init = text.drop_last();
        let before = labels(init);
        lemma_labels_nonempty(init);
        let size = text.len() as int;
        if end == size {
            if text.last() == '.' {
                if start < size {
                    assert(text[size - 1] != '.');
                }
                assert(text.subrange(start, end) =~= Seq::<char>::empty());
                before.len() as int
            } else {
                if start == size {
                    assert(text[size - 1] == '.');
                }
                assert(forall|i: int|
                    start <= i < size - 1 ==> text[i] == #[trigger] init[i]);
                let k = lemma_part_is_label(init, start, size - 1);
                assert(text.subrange(start, end) =~= init.subrange(start, size - 1).push(
                    text.last(),
                ));
                k
            }
        } else {
            if end < size - 1 {
                assert(init[end] == text[end]);
            }
            assert(forall|i: int| start <= i < end ==> text[i] == #[trigger] init[i]);
            let k = lemma_part_is_label(init, start, end);
            assert(text.subrange(start, end) =~= init.subrange(start, end));
            k
        }
    }
}

/// What valid labels mean for the characters of a name: where its dots and hyphens may
/// stand, and how far apart its dots are.
proof fn lemma_valid_labels_meaning(name: Seq<char>)
    requires
        name.len() > 0,
    ensures
        has_only_valid_labels(name) <==> {
            &&& name[0] != '.' && name[0] != '-'
            &&& name[name.len() - 1] != '.' && name[name.len() - 1] != '-'
            &&& forall|i: int|
                0 < i < name.len() - 1 && #[trigger] name[i] == '.' ==> {
                    &&& name[i - 1] != '-'
                    &&& name[i + 1] != '.'
                    &&& name[i + 1] != '-'
                }
            &&& forall|i: int|
                0 <= i <= name.len() - 64 ==> #[trigger] name.subrange(i, i + 64).contains('.')
        },
{
    let size = name.len() as int;
    if has_only_valid_labels(name) {
        assert forall|start: int, end: int| #[trigger] is_part(name, start, end) implies 0 < end
            - start <= 63 && name[start] != '-' && name[end - 1] != '-' by {
            let k = lemma_part_is_label(name, start, end);
            assert(is_valid_label(labels(name)[k]));
            assert(name.subrange(start, end)[0] == name[start]);
        }
        let first = lemma_part_end(name, 0);
        assert(is_part(name, 0, first));
        let last = lemma_part_start(name, size);
        assert(is_part(name, last, size));
        assert(name[size - 1] != '.');
        assert forall|i: int| 0 < i < size - 1 && #[trigger] name[i] == '.' implies {
            &&& name[i - 1] != '-'
            &&& name[i + 1] != '.'
            &&& name[i + 1] != '-'
        } by {
            let start = lemma_part_start(name, i);
            assert(is_part(name, start, i));
            let end = lemma_part_end(name, i + 1);
            assert(is_part(name, i + 1, end));
        }
        assert forall|i: int| 0 <= i <= size - 64 implies #[trigger] name.subrange(
            i,
            i + 64,
        ).contains('.') by {
            let window = name.subrange(i, i + 64);
            if !window.contains('.') {
                let start = lemma_part_start(name, i);
                let end = lemma_part_end(name, i);
                if end < i + 64 {
                    assert(window[end - i] == '.');
                }
                assert(is_part(name, start, end));
            }
        }
    } else {
        let k = choose|k: int|
            0 <= k < labels(name).len() && !is_valid_label(#[trigger] labels(name)[k]);
        let (start, end) = lemma_label_is_part(name, k);
        let label = name.subrange(start, end);
        if end - start >= 64 {
            let window = name.subrange(start, start + 64);
            if window.contains('.') {
                let j = choose|j: int| 0 <= j < window.len() && window[j] == '.';
                assert(name[start + j] != '.');
            }
        } else if start < end {
            assert(label[0] == name[start]);
            assert(label.last() == name[end - 1]);
        }
        if start > 0 {
            assert(name[start - 1] == '.');
        }
        if end < size {
            assert(name[end] == '.');
        }
    }
}

/// A text holds no name exactly where nothing stands in it, or nothing but the root dot.
pub proof fn law_texts_without_a_name(text: Seq<char>)
    ensures
        canonical_name(text) == Err::<Seq<char>, DomainNameError>(DomainNameError::Empty)
            <==> text.len() == 0 || (text.len() == 1 && text[0] == '.'),
{
}

/// A name is refused for a character exactly where, before the root dot, one is no ASCII
/// letter, digit, hyphen, underscore or dot.
pub proof fn law_characters_that_are_refused(text: Seq<char>, size: int)
    requires
        text.len() > 0,
        size == if text[text.len() - 1] == '.' {
            text.len() - 1
        } else {
            text.len() as int
        },
    ensures
        canonical_name(text) == Err::<Seq<char>, DomainNameError>(
            DomainNameError::InvalidCharacter,
        ) <==> exists|i: int|
            0 <= i < size && !('a' <= #[trigger] text[i] <= 'z' || 'A' <= text[i] <= 'Z' || '0'
                <= text[i] <= '9' || text[i] == '-' || text[i] == '_' || text[i] == '.'),
{
    let name = without_root(text);
    assert(forall|i: int| 0 <= i < size ==> #[trigger] text[i] == name[i]);
}

/// A name of allowed characters is too long exactly where, before the root dot, it has more
/// than 253.
pub proof fn law_names_that_are_too_long(text: Seq<char>, size: int)
    requires
        text.len() > 0,
        size == if text[text.len() - 1] == '.' {
            text.len() - 1
        } else {
            text.len() as int
        },
        forall|i: int|
            0 <= i < size ==> 'a' <= #[trigger] text[i] <= 'z' || 'A' <= text[i] <= 'Z' || '0'
                <= text[i] <= '9' || text[i] == '-' || text[i] == '_' || text[i] == '.',
    ensures
        canonical_name(text) == Err::<Seq<char>, DomainNameError>(DomainNameError::TooLong)
            <==> size > 253,
{
    let name = without_root(text);
    assert(forall|i: int| 0 <= i < size ==> text[i] == #[trigger] name[i]);
}

/// Which texts are names. Before the root dot, a name has from 1 to 253 characters, all of
/// them ASCII letters, digits, hyphens, underscores and dots. It begins and ends with
/// neither a dot nor a hyphen, no dot stands next to a dot or a hyphen, and among any 64
/// characters in a row one is a dot. Every such text is accepted, and no other.
pub proof fn law_well_formed_names_are_accepted(text: Seq<char>, size: int)
    requires
        text.len() > 0,
        size == if text[text.len() - 1] == '.' {
            text.len() - 1
        } else {
            text.len() as int
        },
    ensures
        canonical_name(text) is Ok <==> {
            &&& 0 < size <= 253
            &&& forall|i: int|
                0 <= i < size ==> 'a' <= #[trigger] text[i] <= 'z' || 'A' <= text[i] <= 'Z'
                    || '0' <= text[i] <= '9' || text[i] == '-' || text[i] == '_' || text[i] == '.'
            &&& text[0] != '.' && text[0] != '-'
            &&& text[size - 1] != '.' && text[size - 1] != '-'
            &&& forall|i: int|
                0 < i < size - 1 && #[trigger] text[i] == '.' ==> {
                    &&& text[i - 1] != '-'
                    &&& text[i + 1] != '.'
                    &&& text[i + 1] != '-'
                }
            &&& forall|i: int|
                0 <= i <= size - 64 ==> #[trigger] text.subrange(i, i + 64).contains('.')
        },
{
    let name = without_root(text);
    assert(name.len() == size);
    assert(forall|i: int| 0 <= i < size ==> #[trigger] text[i] == name[i]);
    assert(forall|i: int| 0 <= i < size ==> text[i] == #[trigger] name[i]);
    assert forall|i: int| 0 <= i <= size - 64 implies #[trigger] text.subrange(i, i + 64)
        == name.subrange(i, i + 64) by {
        assert(text.subrange(i, i + 64) =~= name.subrange(i, i + 64));
    }
    assert forall|i: int| 0 <= i <= size - 64 implies text.subrange(i, i + 64)
        == #[trigger] name.subrange(i, i + 64) by {
        assert(text.subrange(i, i + 64) =~= name.subrange(i, i + 64));
    }
    if size > 0 {
        lemma_valid_labels_meaning(name);
    }
}

/// The canonical spelling holds the characters of the text, one for one and without the
/// root dot: a capital letter has become the small one, and everything else has stayed.
pub proof fn law_canonical_spelling_keeps_the_text(text: Seq<char>, size: int)
    requires
        canonical_name(text) is Ok,
        size == if text[text.len() - 1] == '.' {
            text.len() - 1
        } else {
            text.len() as int
        },
    ensures
        canonical_name(text)->Ok_0.len() == size,
        forall|i: int|
            0 <= i < size ==> #[trigger] canonical_name(text)->Ok_0[i] as int == (if 'A'
                <= text[i] <= 'Z' {
                text[i] as int + 32
            } else {
                text[i] as int
            }),
{
}

/// Different names stay apart: two texts become one name only where, without their root
/// dots, they have the same length and differ in nothing but the case of letters.
pub proof fn law_different_names_stay_apart(a: Seq<char>, b: Seq<char>, size: int)
    requires
        canonical_name(a) is Ok,
        canonical_name(b) is Ok,
        size == if a[a.len() - 1] == '.' {
            a.len() - 1
        } else {
            a.len() as int
        },
    ensures
        canonical_name(a) == canonical_name(b) <==> {
            &&& size == if b[b.len() - 1] == '.' {
                b.len() - 1
            } else {
                b.len() as int
            }
            &&& forall|i: int|
                0 <= i < size ==> {
                    ||| #[trigger] a[i] == b[i]
                    ||| 'A' <= a[i] <= 'Z' && a[i] as int + 32 == b[i] as int
                    ||| 'A' <= b[i] <= 'Z' && b[i] as int + 32 == a[i] as int
                }
        },
{
    let x = canonical_name(a)->Ok_0;
    let y = canonical_name(b)->Ok_0;
    let other = without_root(b).len() as int;
    law_canonical_spelling_keeps_the_text(a, size);
    law_canonical_spelling_keeps_the_text(b, other);
    if x == y {
        assert(size == other);
        assert forall|i: int| 0 <= i < size implies {
            ||| #[trigger] a[i] == b[i]
            ||| 'A' <= a[i] <= 'Z' && a[i] as int + 32 == b[i] as int
            ||| 'A' <= b[i] <= 'Z' && b[i] as int + 32 == a[i] as int
        } by {
            assert(x[i] == y[i]);
        }
    } else if other == size && (forall|i: int|
        0 <= i < size ==> {
            ||| #[trigger] a[i] == b[i]
            ||| 'A' <= a[i] <= 'Z' && a[i] as int + 32 == b[i] as int
            ||| 'A' <= b[i] <= 'Z' && b[i] as int + 32 == a[i] as int
        }) {
        assert forall|i: int| 0 <= i < size implies #[trigger] x[i] == y[i] by {
            assert(a[i] == a[i]);
        }
        assert(x =~= y);
    }
}

/// Lower case acts on each character alone, and only on the letters from `A` to `Z`.
pub proof fn law_lower_case_changes_capitals_only(text: Seq<char>)
    ensures
        lower_case(text).len() == text.len(),
        forall|i: int|
            0 <= i < text.len() ==> #[trigger] lower_case(text)[i] as int == (if 'A' <= text[i]
                <= 'Z' {
                text[i] as int + 32
            } else {
                text[i] as int
            }),
{
}

impl DomainNameError {
    /// The message that tells a user what is wrong.
    pub open spec fn text(self) -> Seq<char> {
        match self {
            DomainNameError::Empty => "domain name must hold a label"@,
            DomainNameError::InvalidCharacter => "domain name holds an invalid character"@,
            DomainNameError::TooLong => "domain name is too long"@,
            DomainNameError::InvalidLabel => "domain name holds an invalid label"@,
        }
    }

    /// Return the message that tells a user what is wrong.
    pub fn message(&self) -> (message: &'static str)
        ensures
            message@ == self.text(),
            message@ == match self {
                DomainNameError::Empty => "domain name must hold a label"@,
                DomainNameError::InvalidCharacter => "domain name holds an invalid character"@,
                DomainNameError::TooLong => "domain name is too long"@,
                DomainNameError::InvalidLabel => "domain name holds an invalid label"@,
            },
    {
        match self {
            DomainNameError::Empty => "domain name must hold a label",
            DomainNameError::InvalidCharacter => "domain name holds an invalid character",
            DomainNameError::TooLong => "domain name is too long",
            DomainNameError::InvalidLabel => "domain name holds an invalid label",
        }
    }
}

impl DomainName {
    /// The text is a canonical spelling.
    #[verifier::type_invariant]
    spec fn well_formed(self) -> bool {
        canonical_name(self.text@) == Ok::<Seq<char>, DomainNameError>(self.text@)
    }

    /// The canonical spelling of the name.
    pub closed spec fn view(self) -> Seq<char> {
        self.text@
    }

    /// Return the canonical spelling of the name.
    pub fn as_str(&self) -> (text: &str)
        ensures
            text@ == self@,
            canonical_name(self@) == Ok::<Seq<char>, DomainNameError>(self@),
    {
        proof {
            use_type_invariant(self);
        }
        self.text.as_str()
    }

    /// Return the canonical spelling as an owned text.
    pub fn into_string(self) -> (text: String)
        ensures
            text@ == self@,
            canonical_name(self@) == Ok::<Seq<char>, DomainNameError>(self@),
    {
        proof {
            use_type_invariant(&self);
        }
        self.text
    }
}

impl Clone for DomainName {
    fn clone(&self) -> (copy: Self)
        ensures
            copy@ == self@,
    {
        proof {
            use_type_invariant(self);
        }
        DomainName { text: self.text.clone() }
    }
}

impl std::str::FromStr for DomainName {
    type Err = DomainNameError;

    /// Parse a DNS name in any spelling.
    fn from_str(raw: &str) -> (parsed: Result<Self, DomainNameError>)
        ensures
            match parsed {
                Ok(name) => canonical_name(raw@) == Ok::<Seq<char>, DomainNameError>(name@),
                Err(error) => canonical_name(raw@) == Err::<Seq<char>, DomainNameError>(error),
            },
    {
        let count = raw.unicode_len();
        let end = if count > 0 && raw.get_char(count - 1) == '.' {
            count - 1
        } else {
            count
        };
        let name = raw.substring_char(0, end);
        assert(name@ =~= without_root(raw@));
        if end == 0 {
            return Err(DomainNameError::Empty);
        }
        let chars = collect_chars(name);
        if !check_name_chars(&chars) {
            return Err(DomainNameError::InvalidCharacter);
        }
        if end > MAX_NAME_LEN {
            return Err(DomainNameError::TooLong);
        }
        if !check_labels(&chars) {
            return Err(DomainNameError::InvalidLabel);
        }
        proof {
            law_canonical_is_fixed(raw@);
        }
        Ok(DomainName { text: name.to_ascii_lowercase() })
    }
}

/// The characters of a text.
fn collect_chars(text: &str) -> (chars: Vec<char>)
    ensures
        chars@ == text@,
{
    let mut chars: Vec<char> = Vec::new();
    for c in iter: text.chars()
        invariant
            iter.seq() == text@,
            chars@ == text@.take(iter.index() as int),
    {
        assert(text@.take(iter.index() + 1) =~= text@.take(iter.index() as int).push(c));
        chars.push(c);
    }
    assert(text@.take(text@.len() as int) =~= text@);
    chars
}

/// Whether every character may stand in a name.
fn check_name_chars(chars: &Vec<char>) -> (valid: bool)
    ensures
        valid == has_only_name_chars(chars@),
{
    let mut i: usize = 0;
    while i < chars.len()
        invariant
            i <= chars.len(),
            forall|j: int| 0 <= j < i ==> is_label_char(#[trigger] chars@[j]) || chars@[j] == '.',
        decreases chars.len() - i,
    {
        let c = chars[i];
        let in_label = ('a' <= c && c <= 'z') || ('A' <= c && c <= 'Z') || ('0' <= c && c <= '9')
            || c == '-' || c == '_';
        if !in_label && c != '.' {
            assert(!(is_label_char(chars@[i as int]) || chars@[i as int] == '.'));
            return false;
        }
        i += 1;
    }
    true
}

/// Whether the characters from `start` up to `end` are a valid label.
fn check_label(chars: &Vec<char>, start: usize, end: usize) -> (valid: bool)
    requires
        start <= end <= chars.len(),
    ensures
        valid == is_valid_label(chars@.subrange(start as int, end as int)),
{
    start < end && end - start <= MAX_LABEL_LEN && chars[start] != '-' && chars[end - 1] != '-'
}

/// Whether every part between dots is a valid label.
fn check_labels(chars: &Vec<char>) -> (valid: bool)
    ensures
        valid == has_only_valid_labels(chars@),
{
    let mut start: usize = 0;
    let mut i: usize = 0;
    let mut valid = true;
    assert(chars@.take(0) =~= Seq::empty());
    while i < chars.len()
        invariant
            start <= i <= chars.len(),
            labels(chars@.take(i as int)).len() > 0,
            labels(chars@.take(i as int)).last() == chars@.subrange(start as int, i as int),
            valid == (forall|k: int|
                0 <= k < labels(chars@.take(i as int)).len() - 1 ==> is_valid_label(
                    #[trigger] labels(chars@.take(i as int))[k],
                )),
        decreases chars.len() - i,
    {
        let ghost before = labels(chars@.take(i as int));
        let ghost after = labels(chars@.take(i + 1));
        assert(chars@.take(i + 1).drop_last() =~= chars@.take(i as int));
        if chars[i] == '.' {
            let label_valid = check_label(chars, start, i);
            proof {
                let last = before.len() - 1;
                assert(after[last] == before[last]);
                assert(forall|k: int| 0 <= k < last ==> #[trigger] after[k] == before[k]);
                if valid && label_valid {
                    assert forall|k: int| 0 <= k < after.len() - 1 implies is_valid_label(
                        #[trigger] after[k],
                    ) by {
                        if k < last {
                            assert(is_valid_label(before[k]));
                        }
                    }
                } else if !valid {
                    let k = choose|k: int| 0 <= k < last && !is_valid_label(#[trigger] before[k]);
                    assert(!is_valid_label(after[k]));
                }
            }
            valid = valid && label_valid;
            start = i + 1;
        } else {
            proof {
                let last = before.len() - 1;
                assert(forall|k: int| 0 <= k < last ==> #[trigger] after[k] == before[k]);
                if !valid {
                    let k = choose|k: int| 0 <= k < last && !is_valid_label(#[trigger] before[k]);
                    assert(!is_valid_label(after[k]));
                }
                assert(chars@.subrange(start as int, i + 1) =~= chars@.subrange(
                    start as int,
                    i as int,
                ).push(chars@[i as int]));
            }
        }
        i += 1;
    }
    assert(chars@.take(i as int) =~= chars@);
    let last_valid = check_label(chars, start, i);
    proof {
        let last = labels(chars@).len() - 1;
        assert(labels(chars@)[last] == chars@.subrange(start as int, i as int));
        if has_only_valid_labels(chars@) {
            assert(is_valid_label(labels(chars@)[last]));
        }
    }
    valid && last_valid
}

} // verus!
