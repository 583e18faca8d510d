//! Source references: where a copy command takes its peripheral from.

use crate::patch::sequences::lemma_filter_elements;
use crate::patch::sequences::lemma_filter_keeps_none;
use crate::patch::text::chars_of;
use vstd::prelude::*;

verus! {

/// The separator between the file path and the peripheral name.
pub const SEPARATOR: char = ':';

/// A parsed source reference.
#[derive(Debug, PartialEq, Eq)]
pub enum SourceReference {
    /// A peripheral of the device that is being patched.
    Local { name: String },
    /// A peripheral of the device description stored at `path`.
    External { path: String, name: String },
}

/// What a [`SourceReference`] holds, as a mathematical value.
pub enum ReferenceView {
    Local { name: Seq<char> },
    External { path: Seq<char>, name: Seq<char> },
}

impl View for SourceReference {
    type V = ReferenceView;

    open spec fn view(&self) -> ReferenceView {
        match self {
            SourceReference::Local { name } => ReferenceView::Local { name: name@ },
            SourceReference::External { path, name } => ReferenceView::External {
                path: path@,
                name: name@,
            },
        }
    }
}

/// The view of a reference that may be missing.
pub open spec fn optional_reference(r: Option<SourceReference>) -> Option<ReferenceView> {
    match r {
        Some(r) => Some(r@),
        None => None,
    }
}

/// How many separators `text` holds.
pub open spec fn separators(text: Seq<char>) -> nat {
    text.filter(|c: char| c == SEPARATOR).len()
}

/// The reference that `text` spells. Without a separator the whole text names
/// a peripheral of the patched device. With one separator, what stands before
/// it is a file path and what stands after it the name. With more than one
/// the text is no reference.
pub open spec fn reference_of(text: Seq<char>) -> Option<ReferenceView> {
    if separators(text) == 0 {
        Some(ReferenceView::Local { name: text })
    } else if separators(text) == 1 {
        let at = text.index_of(SEPARATOR);
        Some(ReferenceView::External { path: text.take(at), name: text.skip(at + 1) })
    } else {
        None
    }
}

/// Reads a source reference; nothing where `text` holds more than one
/// separator.
pub fn parse_reference(text: &str) -> (parsed: Option<SourceReference>)
    ensures
        optional_reference(parsed) == reference_of(text@),
{
    let chars = chars_of(text);
    let ghost is_separator = |c: char| c == SEPARATOR;
    let mut count: usize = 0;
    let mut first: usize = 0;
    let mut i: usize = 0;
    while i < chars.len()
        invariant
            i <= chars.len(),
            chars@ == text@,
            count <= i,
            is_separator == |c: char| c == SEPARATOR,
            chars@.take(i as int).filter(is_separator).len() == count,
            count == 0 ==> forall|j: int| 0 <= j < i ==> chars[j] != SEPARATOR,
            count >= 1 ==> first < i && chars[first as int] == SEPARATOR,
            count == 1 ==> forall|j: int| 0 <= j < i && chars[j] == SEPARATOR ==> j == first,
        decreases chars.len() - i,
    {
        proof {
            assert(chars@.take(i + 1) =~= chars@.take(i as int).push(chars[i as int]));
            chars@.take(i as int).lemma_filter_push(chars[i as int], is_separator);
        }
        if chars[i] == SEPARATOR {
            if count == 0 {
                first = i;
            }
            count += 1;
        }
        i += 1;
    }
    assert(chars@.take(i as int) =~= chars@);
    if count == 0 {
        Some(SourceReference::Local { name: text.to_owned() })
    } else if count == 1 {
        let path = text.substring_char(0, first);
        let name = text.substring_char(first + 1, chars.len());
        Some(SourceReference::External { path: path.to_owned(), name: name.to_owned() })
    } else {
        None
    }
}

/// A text without separators holds none, and a text that holds none is
/// without separators.
proof fn lemma_no_separators(text: Seq<char>)
    ensures
        separators(text) == 0 <==> !text.contains(SEPARATOR),
{
    let is_separator = |c: char| c == SEPARATOR;
    lemma_filter_elements(text, is_separator);
    if text.contains(SEPARATOR) {
        let i = choose|i: int| 0 <= i < text.len() && text[i] == SEPARATOR;
        text.lemma_filter_contains(is_separator, i);
    } else {
        lemma_filter_keeps_none(text, is_separator);
    }
}

/// A reference is its text cut at the separator. A local reference is the
/// whole text, which holds no separator. The path and the name of an external
/// reference hold no separator, and put together around one they give the
/// text again.
pub proof fn reference_spells_its_text(text: Seq<char>)
    ensures
        match reference_of(text) {
            Some(ReferenceView::Local { name }) => name == text && !text.contains(SEPARATOR),
            Some(ReferenceView::External { path, name }) => {
                &&& path + seq![SEPARATOR] + name == text
                &&& !path.contains(SEPARATOR)
                &&& !name.contains(SEPARATOR)
            },
            None => separators(text) >= 2,
        },
{
    let is_separator = |c: char| c == SEPARATOR;
    lemma_no_separators(text);
    if separators(text) == 1 {
        let at = text.index_of(SEPARATOR);
        let path = text.take(at);
        let name = text.skip(at + 1);
        assert(path + seq![SEPARATOR] + name =~= text);
        Seq::filter_distributes_over_add(path + seq![SEPARATOR], name, is_separator);
        Seq::filter_distributes_over_add(path, seq![SEPARATOR], is_separator);
        assert(seq![SEPARATOR].filter(is_separator).len() == 1) by {
            Seq::<char>::empty().lemma_filter_push(SEPARATOR, is_separator);
            assert(Seq::<char>::empty().push(SEPARATOR) =~= seq![SEPARATOR]);
            lemma_filter_keeps_none(Seq::<char>::empty(), is_separator);
        }
        lemma_no_separators(path);
        lemma_no_separators(name);
    }
}

} // verus!
