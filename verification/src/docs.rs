//! From the metadata of a declaration to its documentation text.

use vstd::prelude::*;
use vstd::string::*;
use crate::tree::{metadata_views, Metadata, MetadataView};

verus! {

/// The name that marks a metadata entry as documentation.
pub open spec fn doc_name() -> Seq<char> {
    seq!['d', 'o', 'c']
}

/// Whether `c` is white space, as Unicode defines it.
pub open spec fn is_white_space(c: char) -> bool {
    let code = c as u32;
    ||| 0x09 <= code <= 0x0d
    ||| code == 0x20
    ||| code == 0x85
    ||| code == 0xa0
    ||| code == 0x1680
    ||| 0x2000 <= code <= 0x200a
    ||| code == 0x2028
    ||| code == 0x2029
    ||| code == 0x202f
    ||| code == 0x205f
    ||| code == 0x3000
}

/// How many characters of white space `text` starts with.
pub open spec fn leading_white_space(text: Seq<char>) -> int
    decreases text.len(),
{
    if text.len() == 0 || !is_white_space(text[0]) {
        0
    } else {
        1 + leading_white_space(text.skip(1))
    }
}

/// `text` without the white space it starts with.
pub open spec fn trim_start(text: Seq<char>) -> Seq<char> {
    text.skip(leading_white_space(text))
}

/// A metadata entry that is named `doc` and has no text, so that it is no
/// documentation: `#[doc(hidden)]` is one.
#[derive(Debug, Clone, Copy, PartialEq, Eq)]
pub struct MalformedDocAttribute {
    /// The position of the entry in its list, counted from zero.
    pub position: usize,
}

/// Whether the entry is named `doc` and has no text.
pub open spec fn is_malformed(entry: MetadataView) -> bool {
    entry.name == Some(doc_name()) && entry.text is None
}

/// Whether one of the entries is named `doc` and has no text.
pub open spec fn has_malformed(entries: Seq<MetadataView>) -> bool {
    exists|i: int| 0 <= i < entries.len() && is_malformed(#[trigger] entries[i])
}

/// Whether the entry at `position` is the first that is named `doc` and has
/// no text.
pub open spec fn is_first_malformed(entries: Seq<MetadataView>, position: int) -> bool {
    &&& 0 <= position < entries.len()
    &&& is_malformed(entries[position])
    &&& forall|j: int| 0 <= j < position ==> !is_malformed(#[trigger] entries[j])
}

/// The line that an entry adds to the documentation: its text without leading
/// white space, if the entry is named `doc` and has a text.
pub open spec fn doc_line(entry: MetadataView) -> Option<Seq<char>> {
    match entry.text {
        Some(text) if entry.name == Some(doc_name()) => Some(trim_start(text)),
        _ => None,
    }
}

/// The documentation lines of a list of entries, in the order of the entries.
pub open spec fn doc_lines(entries: Seq<MetadataView>) -> Seq<Seq<char>>
    decreases entries.len(),
{
    if entries.len() == 0 {
        Seq::empty()
    } else {
        let before = doc_lines(entries.drop_last());
        match doc_line(entries.last()) {
            Some(line) => before.push(line),
            None => before,
        }
    }
}

/// The lines with a line feed between each two.
pub open spec fn join_lines(lines: Seq<Seq<char>>) -> Seq<char>
    decreases lines.len(),
{
    if lines.len() == 0 {
        Seq::empty()
    } else if lines.len() == 1 {
        lines[0]
    } else {
        join_lines(lines.drop_last()) + seq!['\n'] + lines.last()
    }
}

/// The documentation text of a list of entries: its documentation lines,
/// joined. It is empty where no entry is documentation.
pub open spec fn doc_text(entries: Seq<MetadataView>) -> Seq<char> {
    join_lines(doc_lines(entries))
}

/// The leading white space of a text ends at its first character that is
/// none, or at its end.
pub proof fn lemma_leading_white_space(text: Seq<char>)
    ensures
        0 <= leading_white_space(text) <= text.len(),
        forall|j: int| 0 <= j < leading_white_space(text) ==> is_white_space(text[j]),
        leading_white_space(text) < text.len() ==> !is_white_space(
            text[leading_white_space(text)],
        ),
    decreases text.len(),
{
    if text.len() > 0 && is_white_space(text[0]) {
        let rest = text.skip(1);
        lemma_leading_white_space(rest);
        assert forall|j: int| 0 <= j < leading_white_space(text) implies is_white_space(
            text[j],
        ) by {
            if j > 0 {
                assert(text[j] == rest[j - 1]);
            }
        }
    }
}

/// A position that follows white space only, and holds none itself or is the
/// end, is where the leading white space ends.
pub proof fn lemma_leading_white_space_is(text: Seq<char>, at: int)
    requires
        0 <= at <= text.len(),
        forall|j: int| 0 <= j < at ==> is_white_space(text[j]),
        at < text.len() ==> !is_white_space(text[at]),
    ensures
        leading_white_space(text) == at,
{
    lemma_leading_white_space(text);
}

/// Whether `c` is white space.
pub fn char_is_white_space(c: char) -> (r: bool)
    ensures
        r == is_white_space(c),
{
    let code: u32 = c as u32;
    (0x09 <= code && code <= 0x0d) || code == 0x20 || code == 0x85 || code == 0xa0 || code
        == 0x1680 || (0x2000 <= code && code <= 0x200a) || code == 0x2028 || code == 0x2029
        || code == 0x202f || code == 0x205f || code == 0x3000
}

/// `text` without the white space it starts with.
pub fn trimmed_start(text: &str) -> (r: String)
    ensures
        r@ == trim_start(text@),
{
    let total: usize = text.unicode_len();
    let mut k: usize = 0;
    while k < total && char_is_white_space(text.get_char(k))
        invariant
            total == text@.len(),
            k <= total,
            forall|j: int| 0 <= j < k ==> is_white_space(text@[j]),
        decreases total - k,
    {
        k = k + 1;
    }
    proof {
        lemma_leading_white_space_is(text@, k as int);
        assert(text@.subrange(k as int, total as int) =~= text@.skip(k as int));
    }
    text.substring_char(k, total).to_owned()
}

/// Whether the entry is named `doc`.
fn is_doc(entry: &Metadata) -> (r: bool)
    ensures
        r == (entry@.name == Some(doc_name())),
{
    match &entry.name {
        Some(name) => {
            proof {
                reveal_strlit("doc");
                assert("doc"@ =~= doc_name());
            }
            *name == "doc".to_owned()
        },
        None => false,
    }
}

/// The documentation text of a declaration's metadata: the texts of the
/// entries named `doc`, each without its leading white space, one per line.
/// An entry named `doc` that has no text is an error; the first such entry
/// is told.
pub fn attrs_to_string(attrs: &Vec<Metadata>) -> (r: Result<String, MalformedDocAttribute>)
    ensures
        r is Err <==> has_malformed(metadata_views(attrs@)),
        match r {
            Ok(text) => text@ == doc_text(metadata_views(attrs@)),
            Err(error) => is_first_malformed(metadata_views(attrs@), error.position as int),
        },
{
    let ghost entries = metadata_views(attrs@);
    let mut out = String::new();
    let mut any: bool = false;
    let mut k: usize = 0;
    while k < attrs.len()
        invariant
            k <= attrs.len(),
            entries == metadata_views(attrs@),
            forall|j: int| 0 <= j < k ==> !is_malformed(#[trigger] entries[j]),
            any == (doc_lines(entries.take(k as int)).len() > 0),
            out@ == join_lines(doc_lines(entries.take(k as int))),
        decreases attrs.len() - k,
    {
        let entry = &attrs[k];
        proof {
            assert(entries.take(k + 1).drop_last() =~= entries.take(k as int));
            assert(entries.take(k + 1).last() == entry@);
        }
        let ghost before = doc_lines(entries.take(k as int));
        if is_doc(entry) {
            match &entry.text {
                Some(text) => {
                    let line = trimmed_start(text.as_str());
                    proof {
                        assert(doc_line(entry@) == Some(line@));
                        assert(before.push(line@).drop_last() =~= before);
                    }
                    if any {
                        out.append("\n");
                        proof {
                            reveal_strlit("\n");
                            assert("\n"@ =~= seq!['\n']);
                        }
                    } else {
                        proof {
                            assert(Seq::<char>::empty() + line@ =~= line@);
                        }
                    }
                    out.append(line.as_str());
                    any = true;
                },
                None => {
                    proof {
                        assert(is_malformed(entries[k as int]));
                    }
                    return Err(MalformedDocAttribute { position: k });
                },
            }
        }
        proof {
            assert(entries[k as int] == entry@);
        }
        k = k + 1;
    }
    proof {
        assert(entries.take(attrs.len() as int) =~= entries);
    }
    Ok(out)
}

} // verus!
