//! Symbolic paths: a package name followed by the names of nested
//! declarations, written with `::` between the segments.

use vstd::prelude::*;
use vstd::string::*;

verus! {

/// The two characters that stand between the segments of a path.
pub open spec fn separator() -> Seq<char> {
    seq![':', ':']
}

/// Whether a separator starts at position `i` of `text`.
pub open spec fn separator_at(text: Seq<char>, i: int) -> bool {
    0 <= i && i + 1 < text.len() && text[i] == ':' && text[i + 1] == ':'
}

/// The position of the leftmost separator in `text`, or the length of `text`
/// where it holds none.
pub open spec fn first_separator(text: Seq<char>) -> int
    decreases text.len(),
{
    if text.len() < 2 {
        text.len() as int
    } else if text[0] == ':' && text[1] == ':' {
        0
    } else {
        1 + first_separator(text.skip(1))
    }
}

/// The segments of `text`: it is cut at each separator, found from the left,
/// and a separator starts no earlier than where the one before it ended.
pub open spec fn split_segments(text: Seq<char>) -> Seq<Seq<char>>
    decreases text.len(),
{
    let cut = first_separator(text);
    if separator_at(text, cut) {
        seq![text.take(cut)] + split_segments(text.skip(cut + 2))
    } else {
        seq![text]
    }
}

/// The segments written one after the other with a separator between each two.
pub open spec fn join_segments(segments: Seq<Seq<char>>) -> Seq<char>
    decreases segments.len(),
{
    if segments.len() == 0 {
        Seq::empty()
    } else if segments.len() == 1 {
        segments[0]
    } else {
        segments[0] + separator() + join_segments(segments.skip(1))
    }
}

/// The views of a sequence of strings.
pub open spec fn string_views(strings: Seq<String>) -> Seq<Seq<char>> {
    strings.map_values(|s: String| s@)
}

/// `first_separator` is the least position at which a separator starts.
pub proof fn lemma_first_separator(text: Seq<char>)
    ensures
        0 <= first_separator(text) <= text.len(),
        first_separator(text) < text.len() ==> separator_at(text, first_separator(text)),
        forall|j: int| 0 <= j < first_separator(text) ==> !separator_at(text, j),
    decreases text.len(),
{
    if text.len() >= 2 && !(text[0] == ':' && text[1] == ':') {
        let rest = text.skip(1);
        lemma_first_separator(rest);
        assert forall|j: int| 0 <= j < first_separator(text) implies !separator_at(text, j) by {
            if j > 0 {
                assert(!separator_at(rest, j - 1));
            }
        }
    }
}

/// A position with a separator, and none before it, is the first separator.
pub proof fn lemma_first_separator_is(text: Seq<char>, at: int)
    requires
        0 <= at <= text.len(),
        at < text.len() ==> separator_at(text, at),
        forall|j: int| 0 <= j < at ==> !separator_at(text, j),
    ensures
        first_separator(text) == at,
{
    lemma_first_separator(text);
    let found = first_separator(text);
    if found < at {
        assert(separator_at(text, found));
    } else if at < found {
        assert(separator_at(text, at));
    }
}

/// Splitting yields at least one segment.
pub proof fn lemma_split_nonempty(text: Seq<char>)
    ensures
        split_segments(text).len() >= 1,
    decreases text.len(),
{
    let cut = first_separator(text);
    if separator_at(text, cut) {
        lemma_split_nonempty(text.skip(cut + 2));
    }
}

/// Joining what a text was split into gives the text back.
pub proof fn lemma_join_split(text: Seq<char>)
    ensures
        join_segments(split_segments(text)) == text,
    decreases text.len(),
{
    let cut = first_separator(text);
    if separator_at(text, cut) {
        let rest = text.skip(cut + 2);
        lemma_join_split(rest);
        lemma_split_nonempty(rest);
        let parts = split_segments(text);
        assert(parts.skip(1) =~= split_segments(rest));
        assert(parts[0] == text.take(cut));
        assert(text.take(cut) + separator() + rest =~= text);
    }
}

/// Why a text is no path.
#[derive(Debug, Clone, Copy, PartialEq, Eq)]
pub enum PathError {
    /// The text was empty, so it names no package.
    Empty,
}

/// A path of one or more segments. The first names a package, the others
/// walk into its declarations.
#[derive(Debug, PartialEq, Eq)]
pub struct RustPath {
    /// The first segment.
    pub head: String,
    /// The segments after the first; `None` where there are none.
    pub tail: Option<Vec<String>>,
}

impl View for RustPath {
    type V = Seq<Seq<char>>;

    /// The segments of the path, in order.
    open spec fn view(&self) -> Seq<Seq<char>> {
        seq![self.head@] + match self.tail {
            Some(rest) => string_views(rest@),
            None => Seq::empty(),
        }
    }
}

impl Clone for RustPath {
    fn clone(&self) -> (r: Self)
        ensures
            r.head == self.head,
            match (r.tail, self.tail) {
                (Some(copied), Some(rest)) => copied@ == rest@,
                (None, None) => true,
                _ => false,
            },
    {
        let tail = match &self.tail {
            Some(rest) => {
                proof {
                    assert(rest@.skip(0) =~= rest@);
                }
                Some(copy_strings(rest, 0))
            },
            None => None,
        };
        RustPath { head: self.head.clone(), tail }
    }
}

impl RustPath {
    /// A path is well formed when its tail, if it has one, is not empty.
    /// Parsing and `head_tail` yield only such paths.
    pub open spec fn well_formed(&self) -> bool {
        self.tail matches Some(rest) ==> rest@.len() > 0
    }

    /// The text that `to_string` writes.
    pub open spec fn text(&self) -> Seq<char> {
        match self.tail {
            Some(rest) => self.head@ + separator() + join_segments(string_views(rest@)),
            None => self.head@,
        }
    }

    /// Parses a path. Only the empty text is refused; a segment may hold
    /// anything, digits included.
    pub fn from_str(s: &str) -> (r: Result<RustPath, PathError>)
        ensures
            s@.len() == 0 <==> r is Err,
            r matches Err(e) ==> e == PathError::Empty,
            r matches Ok(p) ==> p@ == split_segments(s@) && p.well_formed() && p.text() == s@,
    {
        let total: usize = s.unicode_len();
        if total == 0 {
            return Err(PathError::Empty);
        }
        let mut head: Option<String> = None;
        let mut rest: Vec<String> = Vec::new();
        let mut start: usize = 0;
        let mut i: usize = 0;
        while i < total
            invariant
                total == s@.len(),
                start <= i <= total,
                forall|j: int| start <= j < i ==> !separator_at(s@, j),
                head is None ==> rest@.len() == 0 && start == 0,
                head matches Some(h) ==> seq![h@] + string_views(rest@) + split_segments(
                    s@.skip(start as int),
                ) == split_segments(s@),
            decreases total - i,
        {
            if i + 1 < total && s.get_char(i) == ':' && s.get_char(i + 1) == ':' {
                let segment = s.substring_char(start, i).to_owned();
                proof {
                    let remaining = s@.skip(start as int);
                    let cut = i - start;
                    assert forall|j: int| 0 <= j < cut implies !separator_at(remaining, j) by {
                        assert(!separator_at(s@, j + start));
                    }
                    assert(separator_at(remaining, cut));
                    lemma_first_separator_is(remaining, cut);
                    assert(remaining.take(cut) =~= s@.subrange(start as int, i as int));
                    assert(remaining.skip(cut + 2) =~= s@.skip(i + 2));
                    assert(split_segments(remaining) == seq![segment@] + split_segments(
                        s@.skip(i + 2),
                    ));
                }
                match head {
                    None => {
                        proof {
                            assert(s@.skip(0) =~= s@);
                            assert(seq![segment@] + string_views(rest@) + split_segments(
                                s@.skip(i + 2),
                            ) =~= seq![segment@] + split_segments(s@.skip(i + 2)));
                        }
                        head = Some(segment);
                    },
                    Some(h) => {
                        proof {
                            let before = string_views(rest@);
                            let after = string_views(rest@.push(segment));
                            assert(after =~= before.push(segment@));
                            assert(seq![h@] + after + split_segments(s@.skip(i + 2)) =~= seq![h@]
                                + before + (seq![segment@] + split_segments(s@.skip(i + 2))));
                        }
                        rest.push(segment);
                        head = Some(h);
                    },
                }
                i = i + 2;
                start = i;
            } else {
                proof {
                    assert(!separator_at(s@, i as int));
                }
                i = i + 1;
            }
        }
        let segment = s.substring_char(start, total).to_owned();
        proof {
            let remaining = s@.skip(start as int);
            assert forall|j: int| 0 <= j < remaining.len() implies !separator_at(remaining, j) by {
                assert(!separator_at(s@, j + start));
            }
            lemma_first_separator_is(remaining, remaining.len() as int);
            assert(remaining =~= s@.subrange(start as int, total as int));
            assert(split_segments(remaining) == seq![segment@]);
        }
        match head {
            None => {
                let path = RustPath { head: segment, tail: None };
                proof {
                    assert(s@.skip(0) =~= s@);
                    assert(seq![segment@] + Seq::<Seq<char>>::empty() =~= seq![segment@]);
                    law_parse_then_print(s@, path);
                }
                Ok(path)
            },
            Some(h) => {
                proof {
                    let before = string_views(rest@);
                    let after = string_views(rest@.push(segment));
                    assert(after =~= before.push(segment@));
                    assert(seq![h@] + after =~= seq![h@] + before + seq![segment@]);
                }
                rest.push(segment);
                let path = RustPath { head: h, tail: Some(rest) };
                proof {
                    law_parse_then_print(s@, path);
                }
                Ok(path)
            },
        }
    }

    /// Writes the path with a separator between its segments.
    pub fn to_string(&self) -> (r: String)
        ensures
            r@ == self.text(),
    {
        let mut out = self.head.clone();
        match &self.tail {
            None => {},
            Some(rest) => {
                out.append("::");
                proof {
                    reveal_strlit("::");
                    assert("::"@ =~= separator());
                }
                let joined = join_strings(rest);
                out.append(joined.as_str());
            },
        }
        out
    }

    /// The first segment, and the path made of the others where there are any.
    #[must_use]
    pub fn head_tail(&self) -> (r: (&str, Option<RustPath>))
        ensures
            r.0@ == self@[0],
            r.1 is None <==> self@.len() == 1,
            r.1 matches Some(t) ==> t@ == self@.skip(1) && t.well_formed(),
            r.1 matches Some(t) ==> self.well_formed() ==> r.0@ + separator() + t.text()
                == self.text(),
    {
        match &self.tail {
            None => (self.head.as_str(), None),
            Some(rest) => {
                if rest.len() == 0 {
                    (self.head.as_str(), None)
                } else if rest.len() == 1 {
                    let t = RustPath { head: rest[0].clone(), tail: None };
                    proof {
                        assert(t@ =~= self@.skip(1));
                        law_head_tail_rejoin(*self, t);
                    }
                    (self.head.as_str(), Some(t))
                } else {
                    let others = copy_strings(rest, 1);
                    let t = RustPath { head: rest[0].clone(), tail: Some(others) };
                    proof {
                        assert(t@ =~= self@.skip(1));
                        law_head_tail_rejoin(*self, t);
                    }
                    (self.head.as_str(), Some(t))
                }
            },
        }
    }
}

/// A copy of the strings of `list` from position `from` on.
pub(crate) fn copy_strings(list: &Vec<String>, from: usize) -> (r: Vec<String>)
    requires
        from <= list.len(),
    ensures
        r@ == list@.skip(from as int),
{
    let mut out: Vec<String> = Vec::new();
    let mut k: usize = from;
    while k < list.len()
        invariant
            from <= k <= list.len(),
            out@ == list@.subrange(from as int, k as int),
        decreases list.len() - k,
    {
        out.push(list[k].clone());
        proof {
            assert(out@ =~= list@.subrange(from as int, k + 1));
        }
        k = k + 1;
    }
    proof {
        assert(out@ =~= list@.skip(from as int));
    }
    out
}

/// Joins strings with a separator between each two.
pub fn join_strings(parts: &Vec<String>) -> (r: String)
    ensures
        r@ == join_segments(string_views(parts@)),
{
    let mut out = String::new();
    let mut k: usize = parts.len();
    while k > 0
        invariant
            k <= parts.len(),
            out@ == join_segments(string_views(parts@).skip(k as int)),
        decreases k,
    {
        k = k - 1;
        let ghost tail_text = out@;
        let mut next = parts[k].clone();
        if k + 1 < parts.len() {
            next.append("::");
            next.append(out.as_str());
        }
        proof {
            reveal_strlit("::");
            assert("::"@ =~= separator());
            let all = string_views(parts@);
            let here = all.skip(k as int);
            assert(here[0] == parts@[k as int]@);
            assert(here.skip(1) =~= all.skip(k + 1));
        }
        out = next;
    }
    proof {
        assert(string_views(parts@).skip(0) =~= string_views(parts@));
    }
    out
}

/// Printing a parsed path gives back the text that was parsed.
pub proof fn law_parse_then_print(text: Seq<char>, path: RustPath)
    requires
        path@ == split_segments(text),
        path.well_formed(),
    ensures
        path.text() == text,
{
    lemma_join_split(text);
    lemma_text_is_join(path);
}

/// The text of a well-formed path is its segments joined.
pub proof fn lemma_text_is_join(path: RustPath)
    requires
        path.well_formed(),
    ensures
        path.text() == join_segments(path@),
{
    match path.tail {
        Some(rest) => {
            assert(path@.skip(1) =~= string_views(rest@));
        },
        None => {
            assert(path@ =~= seq![path.head@]);
        },
    }
}

/// Where a path has two segments or more, its head, a separator and the text
/// of its tail make up the text of the path.
pub proof fn law_head_tail_rejoin(path: RustPath, tail: RustPath)
    requires
        path.well_formed(),
        tail.well_formed(),
        path@.len() >= 2,
        tail@ == path@.skip(1),
    ensures
        path@[0] + separator() + tail.text() == path.text(),
{
    lemma_text_is_join(path);
    lemma_text_is_join(tail);
}

} // verus!
