//! One output file for each band: the sections of a REG1TEST text and the
//! file names that their bands give them.

use crate::reg1test::line_views;
use crate::text::{from_chars, optional_chars, to_chars, trim, trimmed};
use vstd::prelude::*;

verus! {

/// The error that the `regex` crate reports for a pattern it cannot
/// compile.
#[verifier::external_type_specification]
#[verifier::external_body]
pub struct ExRegexError(regex::Error);

/// What the `regex` crate finds for a group of a pattern in a text: an
/// outer `None` where it does not accept the pattern; else the text of the
/// group in the leftmost match, or `None` where nothing matches or the
/// group has no part in the match.
pub uninterp spec fn regex_capture(pattern: Seq<char>, haystack: Seq<char>, group: nat) -> Option<
    Option<Seq<char>>,
>;

/// `Regex::new`, then `Regex::captures` and `Captures::get` of the `regex`
/// crate: compiles `pattern` and looks for its leftmost match in
/// `haystack`. The outcome depends on the three arguments alone, and is
/// what [`regex_capture`] names; nothing more is claimed of it.
#[verifier::external_body]
fn capture(pattern: &str, haystack: &str, group: usize) -> (found: Result<
    Option<String>,
    regex::Error,
>)
    ensures
        match found {
            Ok(text) => regex_capture(pattern@, haystack@, group as nat) == Some(
                optional_chars(text),
            ),
            Err(_) => regex_capture(pattern@, haystack@, group as nat) is None,
        },
{
    match regex::Regex::new(pattern) {
        Ok(expression) => match expression.captures(haystack) {
            Some(groups) => match groups.get(group) {
                Some(part) => Ok(Some(part.as_str().to_owned())),
                None => Ok(None),
            },
            None => Ok(None),
        },
        Err(e) => Err(e),
    }
}

/// The band line of a section with its label in a group: digits, which
/// commas may part, a space, and a unit.
pub const BAND_LINE_PATTERN: &'static str = "PBand=(\\d+,*\\d+\\s\\w+)";

/// The part that a band label adds to a file name: the label without its
/// spaces, and with an underscore for each comma.
pub open spec fn file_suffix(label: Seq<char>) -> Seq<char>
    decreases label.len(),
{
    if label.len() == 0 {
        Seq::empty()
    } else {
        let front = file_suffix(label.drop_last());
        let c = label.last();
        if c == ' ' {
            front
        } else if c == ',' {
            front.push('_')
        } else {
            front.push(c)
        }
    }
}

/// The name, without extension, of the file of a band: the name given,
/// an underscore, and the suffix of the band label.
pub open spec fn band_file_name(stem: Seq<char>, label: Seq<char>) -> Seq<char> {
    stem.push('_') + file_suffix(label)
}

/// The name, without extension, of the file of a section, for the label
/// that was found in its band line; none where no label was found.
pub open spec fn section_file_name(stem: Seq<char>, section: Seq<char>) -> Option<Seq<char>> {
    match regex_capture(BAND_LINE_PATTERN@, section, 1) {
        Some(Some(label)) => Some(band_file_name(stem, label)),
        _ => None,
    }
}

/// The name, without extension, of the file that holds the band labelled
/// `label`, where `stem` is the name, without extension, of the file asked
/// for.
pub fn band_file_stem(stem: &str, label: &str) -> (name: String)
    ensures
        name@ == band_file_name(stem@, label@),
{
    let chars = to_chars(label);
    let mut name = stem.to_owned();
    name.push('_');
    let ghost head = name@;
    let mut i: usize = 0;
    while i < chars.len()
        invariant
            i <= chars.len(),
            name@ == head + file_suffix(chars@.take(i as int)),
        decreases chars.len() - i,
    {
        let c = chars[i];
        if c == ',' {
            name.push('_');
        } else if c != ' ' {
            name.push(c);
        }
        proof {
            assert(chars@.take(i + 1).drop_last() =~= chars@.take(i as int));
        }
        i += 1;
    }
    assert(chars@.take(i as int) =~= label@);
    name
}

/// The name, without extension, of the file for one section of a REG1TEST
/// text; `None` where the section has no band line with a label.
pub fn section_file_stem(stem: &str, section: &str) -> (name: Option<String>)
    ensures
        optional_chars(name) == section_file_name(stem@, section@),
{
    match capture(BAND_LINE_PATTERN, section, 1) {
        Ok(Some(label)) => Some(band_file_stem(stem, label.as_str())),
        Ok(None) => None,
        Err(_) => None,
    }
}

/// Where the first empty line of `s` starts: the place of its first two
/// line breaks in a row; the length of `s` where it has none.
pub open spec fn first_break(s: Seq<char>) -> nat
    decreases s.len(),
{
    if s.len() < 2 {
        s.len()
    } else if s[0] == '\n' && s[1] == '\n' {
        0
    } else {
        1 + first_break(s.skip(1))
    }
}

/// The pieces of `s` between its empty lines, from left to right.
pub open spec fn sections_of(s: Seq<char>) -> Seq<Seq<char>>
    decreases s.len(),
{
    let at = first_break(s);
    if at + 2 > s.len() {
        seq![s]
    } else {
        seq![s.take(at as int)] + sections_of(s.skip(at as int + 2))
    }
}

/// Without two line breaks in a row before `at`, the first empty line
/// starts at `at` if two line breaks stand there, and there is none if `at`
/// is the last place or the end.
pub proof fn lemma_first_break(s: Seq<char>, at: int)
    requires
        0 <= at <= s.len(),
        forall|i: int| 0 <= i < at && i + 1 < s.len() ==> !(s[i] == '\n' && #[trigger] s[i + 1] == '\n'),
        at + 1 < s.len() ==> s[at] == '\n' && s[at + 1] == '\n',
    ensures
        first_break(s) == (if at + 1 < s.len() {
            at
        } else {
            s.len() as int
        }),
    decreases at,
{
    if s.len() >= 2 && at > 0 {
        let rest = s.skip(1);
        assert(!(s[0] == '\n' && s[0int + 1] == '\n'));
        assert forall|i: int| 0 <= i < at - 1 && i + 1 < rest.len() implies !(rest[i] == '\n'
            && #[trigger] rest[i + 1] == '\n') by {
            assert(rest[i] == s[i + 1]);
            assert(rest[i + 1] == s[(i + 1) + 1]);
        }
        lemma_first_break(rest, at - 1);
    }
}

/// The sections of a REG1TEST text: the text without white space around
/// it, cut at its empty lines.
pub fn split_sections(text: &str) -> (sections: Vec<String>)
    ensures
        line_views(sections@) == sections_of(trimmed(text@)),
{
    let kept = trim(text);
    let chars = to_chars(kept.as_str());
    let n = chars.len();
    let mut sections: Vec<String> = Vec::new();
    let mut start: usize = 0;
    let mut i: usize = 0;
    proof {
        assert(chars@.skip(0) =~= chars@);
        assert(line_views(sections@) + sections_of(chars@) =~= sections_of(chars@));
    }
    while i < n && i + 1 < n
        invariant
            start <= i <= n,
            n == chars.len(),
            chars@ == trimmed(text@),
            sections_of(chars@) == line_views(sections@) + sections_of(chars@.skip(start as int)),
            forall|k: int|
                start <= k < i && k + 1 < n ==> !(chars@[k] == '\n' && #[trigger] chars@[k + 1]
                    == '\n'),
        decreases n - i,
    {
        if chars[i] == '\n' && chars[i + 1] == '\n' {
            let piece = from_chars(&chars, start, i);
            proof {
                let rest = chars@.skip(start as int);
                assert forall|k: int| 0 <= k < i - start && k + 1 < rest.len() implies !(rest[k]
                    == '\n' && #[trigger] rest[k + 1] == '\n') by {
                    assert(rest[k] == chars@[k + start]);
                    assert(rest[k + 1] == chars@[(k + start) + 1]);
                }
                lemma_first_break(rest, i - start);
                assert(rest.take(i - start) =~= piece@);
                assert(rest.skip(i - start + 2) =~= chars@.skip(i + 2));
                assert(line_views(sections@.push(piece)) =~= line_views(sections@) + seq![piece@]);
            }
            sections.push(piece);
            i += 2;
            start = i;
        } else {
            i += 1;
        }
    }
    let piece = from_chars(&chars, start, n);
    proof {
        let rest = chars@.skip(start as int);
        assert forall|k: int| 0 <= k < rest.len() && k + 1 < rest.len() implies !(rest[k] == '\n'
            && #[trigger] rest[k + 1] == '\n') by {
            assert(rest[k] == chars@[k + start]);
            assert(rest[k + 1] == chars@[(k + start) + 1]);
        }
        lemma_first_break(rest, rest.len() as int);
        assert(rest =~= piece@);
        assert(line_views(sections@.push(piece)) =~= line_views(sections@) + seq![piece@]);
    }
    sections.push(piece);
    sections
}

} // verus!
