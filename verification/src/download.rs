//! Calling the downloader and reading what it prints.
//!
//! The downloader is asked to print the path of each file it has written, in
//! double quotes, one path on a line. The paths are what is left of its
//! output when the white space around it and every double quote are taken
//! away; a playlist gives one path for each line.

use crate::text::{chars_of, push_chars, remove_char, without_char};
use vstd::prelude::*;
use vstd::string::StringExecFns;

verus! {

/// Whether a character has Unicode's property `White_Space`: the controls
/// from tab to carriage return and the next-line control, the space and the
/// no-break space, and the spaces and separators beyond Latin.
pub open spec fn white_space(ch: char) -> bool {
    let code = ch as u32;
    ||| 0x0009 <= code <= 0x000d
    ||| code == 0x0020
    ||| code == 0x0085
    ||| code == 0x00a0
    ||| code == 0x1680
    ||| 0x2000 <= code <= 0x200a
    ||| code == 0x2028
    ||| code == 0x2029
    ||| code == 0x202f
    ||| code == 0x205f
    ||| code == 0x3000
}

/// Whether a character is white space.
pub fn is_white_space(ch: char) -> (result: bool)
    ensures
        result == white_space(ch),
{
    let code = ch as u32;
    (0x0009 <= code && code <= 0x000d) || code == 0x0020 || code == 0x0085 || code == 0x00a0
        || code == 0x1680 || (0x2000 <= code && code <= 0x200a) || code == 0x2028 || code == 0x2029
        || code == 0x202f || code == 0x205f || code == 0x3000
}

/// How many characters of white space the text begins with.
pub open spec fn leading_space(text: Seq<char>) -> nat
    decreases text.len(),
{
    if text.len() > 0 && white_space(text[0]) {
        1 + leading_space(text.drop_first())
    } else {
        0
    }
}

/// How many characters of white space the text ends with.
pub open spec fn trailing_space(text: Seq<char>) -> nat
    decreases text.len(),
{
    if text.len() > 0 && white_space(text.last()) {
        1 + trailing_space(text.drop_last())
    } else {
        0
    }
}

/// The text without the white space that it begins and ends with.
pub open spec fn trimmed(text: Seq<char>) -> Seq<char> {
    let rest = text.skip(leading_space(text) as int);
    rest.take(rest.len() - trailing_space(rest))
}

/// The number of characters before the first line feed, or the length of the
/// text if it holds none.
pub open spec fn first_newline(text: Seq<char>) -> nat
    decreases text.len(),
{
    if text.len() == 0 || text[0] == '\n' {
        0
    } else {
        1 + first_newline(text.drop_first())
    }
}

/// A line without the carriage return that it may end with.
pub open spec fn without_return(line: Seq<char>) -> Seq<char> {
    if line.len() > 0 && line.last() == '\r' {
        line.drop_last()
    } else {
        line
    }
}

/// The lines of a text. A line ends with a line feed, or with a carriage
/// return and a line feed; neither belongs to the line. What follows the
/// last line feed is a line too, unless it is empty.
pub open spec fn lines(text: Seq<char>) -> Seq<Seq<char>>
    decreases text.len(),
{
    if text.len() == 0 {
        Seq::empty()
    } else if first_newline(text) >= text.len() {
        seq![text]
    } else {
        seq![without_return(text.take(first_newline(text) as int))] + lines(
            text.skip(first_newline(text) as int + 1),
        )
    }
}

/// The path that the downloader has printed for one track.
pub open spec fn printed_path(output: Seq<char>) -> Seq<char> {
    without_char(trimmed(output), '"')
}

/// The paths that the downloader has printed for a playlist.
pub open spec fn printed_paths(output: Seq<char>) -> Seq<Seq<char>> {
    lines(printed_path(output))
}

/// The arguments that make the downloader fetch `url` as an MP3 file in
/// `directory` and print where the file is.
pub open spec fn arguments(directory: Seq<char>, url: Seq<char>) -> Seq<Seq<char>> {
    seq![
        "--print"@,
        "after_move:\"%(filepath)s\""@,
        "-x"@,
        "-f"@,
        "bestaudio"@,
        "--audio-format"@,
        "mp3"@,
        "--audio-quality"@,
        "0"@,
        "-P"@,
        directory,
        url,
    ]
}

proof fn lemma_leading_space(text: Seq<char>, count: int)
    requires
        0 <= count <= text.len(),
        forall|j: int| 0 <= j < count ==> white_space(#[trigger] text[j]),
        count < text.len() ==> !white_space(text[count]),
    ensures
        leading_space(text) == count,
    decreases count,
{
    if count > 0 {
        let rest = text.drop_first();
        assert forall|j: int| 0 <= j < count - 1 implies white_space(#[trigger] rest[j]) by {
            assert(rest[j] == text[j + 1]);
        }
        lemma_leading_space(rest, count - 1);
    }
}

proof fn lemma_trailing_space(text: Seq<char>, count: int)
    requires
        0 <= count <= text.len(),
        forall|j: int| text.len() - count <= j < text.len() ==> white_space(#[trigger] text[j]),
        count < text.len() ==> !white_space(text[text.len() - count - 1]),
    ensures
        trailing_space(text) == count,
    decreases count,
{
    if count > 0 {
        let rest = text.drop_last();
        assert forall|j: int| rest.len() - (count - 1) <= j < rest.len() implies white_space(
            #[trigger] rest[j],
        ) by {
            assert(rest[j] == text[j]);
        }
        lemma_trailing_space(rest, count - 1);
    }
}

proof fn lemma_first_newline(text: Seq<char>, count: int)
    requires
        0 <= count <= text.len(),
        forall|j: int| 0 <= j < count ==> #[trigger] text[j] != '\n',
        count < text.len() ==> text[count] == '\n',
    ensures
        first_newline(text) == count,
    decreases count,
{
    if count > 0 {
        let rest = text.drop_first();
        assert forall|j: int| 0 <= j < count - 1 implies #[trigger] rest[j] != '\n' by {
            assert(rest[j] == text[j + 1]);
        }
        lemma_first_newline(rest, count - 1);
    }
}

/// Where the text begins and ends once the white space around it is left out.
fn trim_bounds(text: &Vec<char>) -> (bounds: (usize, usize))
    ensures
        bounds.0 <= bounds.1 <= text.len(),
        text@.subrange(bounds.0 as int, bounds.1 as int) == trimmed(text@),
{
    let mut start: usize = 0;
    while start < text.len() && is_white_space(text[start])
        invariant
            start <= text.len(),
            forall|j: int| 0 <= j < start ==> white_space(#[trigger] text@[j]),
        decreases text.len() - start,
    {
        start += 1;
    }
    let ghost rest = text@.skip(start as int);
    let mut end: usize = text.len();
    while end > start && is_white_space(text[end - 1])
        invariant
            start <= end <= text.len(),
            forall|j: int| end <= j < text.len() ==> white_space(#[trigger] text@[j]),
        decreases end,
    {
        end -= 1;
    }
    proof {
        lemma_leading_space(text@, start as int);
        assert forall|j: int| rest.len() - (text.len() - end) <= j < rest.len() implies white_space(
            #[trigger] rest[j],
        ) by {
            assert(rest[j] == text@[j + start]);
        }
        if text.len() - end < rest.len() {
            assert(rest[rest.len() - (text.len() - end) - 1] == text@[end - 1]);
        }
        lemma_trailing_space(rest, text.len() - end);
        assert(text@.subrange(start as int, end as int) =~= trimmed(text@));
    }
    (start, end)
}

/// The lines of a text.
fn lines_of(text: &Vec<char>) -> (found: Vec<String>)
    ensures
        found.deep_view() == lines(text@),
{
    let ghost all = text@;
    let mut found: Vec<String> = Vec::new();
    let mut start: usize = 0;
    let mut i: usize = 0;
    assert(found.deep_view() + lines(all.skip(0)) =~= lines(all)) by {
        assert(all.skip(0) =~= all);
    }
    while i < text.len()
        invariant
            start <= i <= text.len(),
            all == text@,
            found.deep_view() + lines(all.skip(start as int)) == lines(all),
            forall|j: int| start <= j < i ==> #[trigger] all[j] != '\n',
        decreases text.len() - i,
    {
        if text[i] == '\n' {
            let end = if i > start && text[i - 1] == '\r' {
                i - 1
            } else {
                i
            };
            let mut line = String::new();
            push_chars(&mut line, text, start, end);
            proof {
                let rest = all.skip(start as int);
                assert forall|j: int| 0 <= j < i - start implies #[trigger] rest[j] != '\n' by {
                    assert(rest[j] == all[j + start]);
                }
                lemma_first_newline(rest, i - start);
                assert(rest.take(i - start) =~= all.subrange(start as int, i as int));
                assert(rest.skip(i - start + 1) =~= all.skip(i + 1));
                assert(without_return(all.subrange(start as int, i as int)) =~= all.subrange(
                    start as int,
                    end as int,
                ));
                assert(line@ =~= all.subrange(start as int, end as int));
                let before = found.deep_view();
                assert(before.push(line@) + lines(all.skip(i + 1)) =~= before + lines(rest));
            }
            let ghost before = found.deep_view();
            found.push(line);
            assert(found.deep_view() =~= before.push(line@));
            start = i + 1;
        }
        i += 1;
    }
    if start < text.len() {
        let mut line = String::new();
        push_chars(&mut line, text, start, text.len());
        proof {
            let rest = all.skip(start as int);
            assert forall|j: int| 0 <= j < rest.len() implies #[trigger] rest[j] != '\n' by {
                assert(rest[j] == all[j + start]);
            }
            lemma_first_newline(rest, rest.len() as int);
            assert(line@ =~= rest);
        }
        let ghost before = found.deep_view();
        found.push(line);
        assert(found.deep_view() =~= before.push(line@));
        assert(found.deep_view() =~= lines(all));
    } else {
        assert(found.deep_view() + lines(all.skip(start as int)) =~= found.deep_view());
    }
    found
}

/// The path of the file that the downloader has written for one track.
pub fn track_path(output: &str) -> (path: String)
    ensures
        path@ == printed_path(output@),
{
    let text = chars_of(output);
    let (start, end) = trim_bounds(&text);
    let mut inner = String::new();
    push_chars(&mut inner, &text, start, end);
    assert(inner@ =~= trimmed(output@));
    remove_char(inner.as_str(), '"')
}

/// The paths of the files that the downloader has written for a playlist,
/// in the order in which it printed them.
pub fn playlist_paths(output: &str) -> (paths: Vec<String>)
    ensures
        paths.deep_view() == printed_paths(output@),
{
    let path = track_path(output);
    let text = chars_of(path.as_str());
    lines_of(&text)
}

/// The arguments with which the downloader is called for `url`, to write
/// into `directory`.
pub fn download_arguments(directory: &str, url: &str) -> (args: Vec<String>)
    ensures
        args.deep_view() == arguments(directory@, url@),
{
    let mut args: Vec<String> = Vec::new();
    args.push(String::from_str("--print"));
    args.push(String::from_str("after_move:\"%(filepath)s\""));
    args.push(String::from_str("-x"));
    args.push(String::from_str("-f"));
    args.push(String::from_str("bestaudio"));
    args.push(String::from_str("--audio-format"));
    args.push(String::from_str("mp3"));
    args.push(String::from_str("--audio-quality"));
    args.push(String::from_str("0"));
    args.push(String::from_str("-P"));
    args.push(String::from_str(directory));
    args.push(String::from_str(url));
    assert(args.deep_view() =~= arguments(directory@, url@));
    args
}

} // verus!
