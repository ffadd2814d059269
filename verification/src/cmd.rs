//! The command parser: from a line of input to the stages of a pipeline.
//!
//! A line is cut at every `|` into segments. Each segment is cut at white
//! space into words; the first word names the command and the rest are its
//! arguments, taken verbatim. A segment without a word is a parse error.

use vstd::prelude::*;
use vstd::string::*;
use crate::text::{is_whitespace, to_chars, whitespace};

verus! {

/// The character that separates the stages of a pipeline.
pub open spec fn is_pipe(c: char) -> bool {
    c == '|'
}

/// How many characters stand at the front of `s` before its first white space.
pub open spec fn word_len(s: Seq<char>) -> nat
    decreases s.len(),
{
    if s.len() == 0 || is_whitespace(s[0]) {
        0
    } else {
        1 + word_len(s.drop_first())
    }
}

/// The words of `s`: its maximal runs of characters that are not white space,
/// from left to right.
pub open spec fn words(s: Seq<char>) -> Seq<Seq<char>>
    decreases s.len(),
{
    if s.len() == 0 {
        Seq::empty()
    } else if is_whitespace(s[0]) {
        words(s.drop_first())
    } else {
        proof {
            lemma_word_len_bound(s);
        }
        let n = word_len(s) as int;
        seq![s.take(n)] + words(s.skip(n))
    }
}

/// How many characters stand at the front of `s` before its first `|`.
pub open spec fn segment_len(s: Seq<char>) -> nat
    decreases s.len(),
{
    if s.len() == 0 || is_pipe(s[0]) {
        0
    } else {
        1 + segment_len(s.drop_first())
    }
}

/// The segments of a line: the stretches between its `|` characters. A line
/// with `n` of them has `n + 1` segments, some of which may be empty.
pub open spec fn segments(s: Seq<char>) -> Seq<Seq<char>>
    decreases s.len(),
{
    proof {
        lemma_segment_len_bound(s);
    }
    let n = segment_len(s) as int;
    if n >= s.len() {
        seq![s]
    } else {
        seq![s.take(n)] + segments(s.skip(n + 1))
    }
}

/// A word never reaches past the end of the text.
pub proof fn lemma_word_len_bound(s: Seq<char>)
    ensures
        word_len(s) <= s.len(),
        s.len() > 0 && !is_whitespace(s[0]) ==> word_len(s) >= 1,
        word_len(s) < s.len() ==> is_whitespace(s[word_len(s) as int]),
        forall|i: int| 0 <= i < word_len(s) ==> !is_whitespace(#[trigger] s[i]),
    decreases s.len(),
{
    if s.len() > 0 && !is_whitespace(s[0]) {
        lemma_word_len_bound(s.drop_first());
        assert forall|i: int| 0 <= i < word_len(s) implies !is_whitespace(#[trigger] s[i]) by {
            if i > 0 {
                assert(s[i] == s.drop_first()[i - 1]);
            }
        }
    }
}

/// A segment never reaches past the end of the line, and ends at a `|`.
pub proof fn lemma_segment_len_bound(s: Seq<char>)
    ensures
        segment_len(s) <= s.len(),
        segment_len(s) < s.len() ==> is_pipe(s[segment_len(s) as int]),
        forall|i: int| 0 <= i < segment_len(s) ==> !is_pipe(#[trigger] s[i]),
    decreases s.len(),
{
    if s.len() > 0 && !is_pipe(s[0]) {
        lemma_segment_len_bound(s.drop_first());
        assert forall|i: int| 0 <= i < segment_len(s) implies !is_pipe(#[trigger] s[i]) by {
            if i > 0 {
                assert(s[i] == s.drop_first()[i - 1]);
            }
        }
    }
}

/// A word holds at least one character, and no white space.
pub open spec fn is_word(w: Seq<char>) -> bool {
    &&& w.len() > 0
    &&& forall|j: int| 0 <= j < w.len() ==> !is_whitespace(#[trigger] w[j])
}

/// What `words` yields are words.
pub proof fn lemma_words_are_words(s: Seq<char>)
    ensures
        forall|i: int| 0 <= i < words(s).len() ==> is_word(#[trigger] words(s)[i]),
    decreases s.len(),
{
    if s.len() == 0 {
        assert(words(s).len() == 0);
    } else if is_whitespace(s[0]) {
        lemma_words_are_words(s.drop_first());
        assert(words(s) == words(s.drop_first()));
    } else {
        lemma_word_len_bound(s);
        let n = word_len(s) as int;
        lemma_words_are_words(s.skip(n));
        assert(is_word(s.take(n)));
        assert forall|i: int| 0 <= i < words(s).len() implies is_word(#[trigger] words(s)[i]) by {
            if i > 0 {
                assert(words(s)[i] == words(s.skip(n))[i - 1]);
            }
        }
    }
}

/// A text has no word exactly if it holds nothing but white space.
pub proof fn lemma_no_words_iff_blank(s: Seq<char>)
    ensures
        words(s).len() == 0 <==> forall|i: int| 0 <= i < s.len() ==> is_whitespace(#[trigger] s[i]),
    decreases s.len(),
{
    if s.len() > 0 && is_whitespace(s[0]) {
        lemma_no_words_iff_blank(s.drop_first());
        let rest = s.drop_first();
        if words(s).len() == 0 {
            assert forall|i: int| 0 <= i < s.len() implies is_whitespace(#[trigger] s[i]) by {
                if i > 0 {
                    assert(s[i] == rest[i - 1]);
                }
            }
        }
        if forall|i: int| 0 <= i < s.len() ==> is_whitespace(#[trigger] s[i]) {
            assert forall|i: int| 0 <= i < rest.len() implies is_whitespace(
                #[trigger] rest[i],
            ) by {
                assert(rest[i] == s[i + 1]);
            }
        }
    }
}

/// A line has at least one segment, and no segment holds a `|`.
pub proof fn lemma_segments_shape(s: Seq<char>)
    ensures
        segments(s).len() >= 1,
        forall|i: int, j: int|
            0 <= i < segments(s).len() && 0 <= j < segments(s)[i].len() ==> !is_pipe(
                #[trigger] segments(s)[i][j],
            ),
    decreases s.len(),
{
    lemma_segment_len_bound(s);
    let n = segment_len(s) as int;
    if n < s.len() {
        lemma_segments_shape(s.skip(n + 1));
        assert forall|i: int, j: int|
            0 <= i < segments(s).len() && 0 <= j < segments(s)[i].len() implies !is_pipe(
            #[trigger] segments(s)[i][j],
        ) by {
            if i > 0 {
                assert(segments(s)[i] == segments(s.skip(n + 1))[i - 1]);
            }
        }
    }
}

/// One stage of a pipeline as the parser sees it: a name and its arguments.
pub struct CommandSpec {
    pub name: Seq<char>,
    pub arguments: Seq<Seq<char>>,
}

/// What a segment parses to: nothing if it holds no word.
pub open spec fn parse_segment(segment: Seq<char>) -> Option<CommandSpec> {
    let w = words(segment);
    if w.len() == 0 {
        None
    } else {
        Some(CommandSpec { name: w[0], arguments: w.skip(1) })
    }
}

/// The character sequences that a list of strings holds.
pub open spec fn texts(strings: Seq<String>) -> Seq<Seq<char>> {
    Seq::new(strings.len(), |i: int| strings[i]@)
}

/// One stage of a pipeline: the command to run and its arguments.
#[derive(Debug, Clone, PartialEq, Eq)]
pub struct ShellCommand {
    pub name: String,
    pub arguments: Vec<String>,
}

/// Why a line could not be parsed.
#[derive(Debug, Clone, Copy, PartialEq, Eq, Structural)]
pub enum ParseError {
    /// The segment at this position, counted from zero, holds no word.
    EmptyCommand { segment: usize },
}

impl ParseError {
    /// The message shown to the user.
    pub fn message(&self) -> (text: String)
        ensures
            text@ == "empty command in pipeline"@,
    {
        String::from_str("empty command in pipeline")
    }
}

impl View for ShellCommand {
    type V = CommandSpec;

    open spec fn view(&self) -> CommandSpec {
        CommandSpec { name: self.name@, arguments: texts(self.arguments@) }
    }
}

impl Default for ShellCommand {
    /// The command with an empty name and no arguments.
    fn default() -> (command: ShellCommand)
        ensures
            command@.name.len() == 0,
            command@.arguments.len() == 0,
    {
        ShellCommand { name: String::new(), arguments: Vec::new() }
    }
}

/// Parses the characters of `text` from `from` up to `to` as one segment.
fn parse_range(text: &str, chars: &Vec<char>, from: usize, to: usize) -> (parsed: Option<
    ShellCommand,
>)
    requires
        chars@ == text@,
        from <= to <= chars.len(),
    ensures
        parsed is Some == parse_segment(chars@.subrange(from as int, to as int)) is Some,
        parsed is Some ==> parsed->0@ == parse_segment(
            chars@.subrange(from as int, to as int),
        )->0,
{
    let ghost seg = chars@.subrange(from as int, to as int);
    let mut tokens: Vec<String> = Vec::new();
    let mut i: usize = from;
    assert(seg.skip(0) =~= seg);
    loop
        invariant
            chars@ == text@,
            from <= i <= to <= chars.len(),
            seg == chars@.subrange(from as int, to as int),
            words(seg) == texts(tokens@) + words(seg.skip(i - from)),
        ensures
            i == to,
        decreases to - i,
    {
        let ghost entry = i;
        while i < to && whitespace(chars[i])
            invariant
                from <= entry <= i <= to <= chars.len(),
                seg == chars@.subrange(from as int, to as int),
                words(seg) == texts(tokens@) + words(seg.skip(i - from)),
            decreases to - i,
        {
            proof {
                let rest = seg.skip(i - from);
                assert(rest[0] == chars@[i as int]);
                assert(rest.drop_first() =~= seg.skip(i + 1 - from));
            }
            i += 1;
        }
        if i == to {
            break ;
        }
        let start: usize = i;
        let ghost rest = seg.skip(start - from);
        while i < to && !whitespace(chars[i])
            invariant
                from <= entry <= start <= i <= to <= chars.len(),
                start < to,
                !is_whitespace(chars@[start as int]),
                seg == chars@.subrange(from as int, to as int),
                rest == seg.skip(start - from),
                word_len(rest) == (i - start) + word_len(seg.skip(i - from)),
            decreases to - i,
        {
            proof {
                let tail = seg.skip(i - from);
                assert(tail[0] == chars@[i as int]);
                assert(tail.drop_first() =~= seg.skip(i + 1 - from));
            }
            i += 1;
        }
        let token = String::from_str(text.substring_char(start, i));
        proof {
            let tail = seg.skip(i - from);
            assert(word_len(tail) == 0) by {
                if i < to {
                    assert(tail[0] == chars@[i as int]);
                }
            }
            assert(rest[0] == chars@[start as int]);
            assert(rest.take(i - start) =~= text@.subrange(start as int, i as int));
            assert(rest.skip(i - start) =~= tail);
            assert(texts(tokens@.push(token)) =~= texts(tokens@) + seq![token@]);
        }
        tokens.push(token);
    }
    proof {
        assert(seg.skip(to - from).len() == 0);
        assert(words(seg) =~= texts(tokens@));
    }
    if tokens.len() == 0 {
        None
    } else {
        let ghost all = tokens@;
        let name = tokens.remove(0);
        proof {
            assert(texts(tokens@) =~= texts(all).skip(1));
        }
        Some(ShellCommand { name, arguments: tokens })
    }
}

impl ShellCommand {
    /// Parses one segment of a line: its first word is the command's name,
    /// the words after it are the arguments. A segment that holds nothing but
    /// white space is refused.
    pub fn new(name: String) -> (parsed: Result<ShellCommand, ParseError>)
        ensures
            match parsed {
                Ok(command) => parse_segment(name@) == Some(command@) && command@.name.len() > 0,
                Err(e) => parse_segment(name@) is None && e == (ParseError::EmptyCommand {
                    segment: 0,
                }),
            },
    {
        proof {
            lemma_words_are_words(name@);
        }
        let chars = to_chars(name.as_str());
        assert(chars@.subrange(0, chars@.len() as int) =~= name@);
        match parse_range(name.as_str(), &chars, 0, chars.len()) {
            Some(command) => Ok(command),
            None => Err(ParseError::EmptyCommand { segment: 0 }),
        }
    }
}

/// Whether `commands` is what the segments `segs` parse to, one for one.
pub open spec fn parses_to(segs: Seq<Seq<char>>, commands: Seq<ShellCommand>) -> bool {
    &&& commands.len() == segs.len()
    &&& forall|i: int|
        0 <= i < segs.len() ==> parse_segment(segs[i]) == Some(#[trigger] commands[i]@)
}

/// Whether the segment at position `k` is the first of `segs` without a word.
pub open spec fn first_empty_segment(segs: Seq<Seq<char>>, k: int) -> bool {
    &&& 0 <= k < segs.len()
    &&& parse_segment(segs[k]) is None
    &&& forall|j: int| 0 <= j < k ==> parse_segment(#[trigger] segs[j]) is Some
}

/// Parses a line into the stages of its pipeline, from left to right: one
/// command for each segment. The line is refused if a segment holds no word,
/// and the error names the first such segment.
pub fn parse_line(line: &str) -> (parsed: Result<Vec<ShellCommand>, ParseError>)
    ensures
        match parsed {
            Ok(commands) => parses_to(segments(line@), commands@),
            Err(ParseError::EmptyCommand { segment }) => first_empty_segment(
                segments(line@),
                segment as int,
            ),
        },
{
    let chars = to_chars(line);
    let n = chars.len();
    let mut commands: Vec<ShellCommand> = Vec::new();
    let mut start: usize = 0;
    let ghost mut done: Seq<Seq<char>> = Seq::empty();
    assert(chars@.skip(0) =~= chars@);
    loop
        invariant
            chars@ == line@,
            n == chars.len(),
            start <= n,
            segments(chars@) == done + segments(chars@.skip(start as int)),
            parses_to(done, commands@),
        decreases n - start,
    {
        let ghost rest = chars@.skip(start as int);
        let mut end: usize = start;
        while end < n && chars[end] != '|'
            invariant
                n == chars.len(),
                start <= end <= n,
                rest == chars@.skip(start as int),
                segment_len(rest) == (end - start) + segment_len(chars@.skip(end as int)),
            decreases n - end,
        {
            proof {
                let tail = chars@.skip(end as int);
                assert(tail[0] == chars@[end as int]);
                assert(tail.drop_first() =~= chars@.skip(end + 1));
            }
            end += 1;
        }
        proof {
            let tail = chars@.skip(end as int);
            assert(segment_len(tail) == 0) by {
                if end < n {
                    assert(tail[0] == chars@[end as int]);
                }
            }
            assert(rest.take(end - start) =~= chars@.subrange(start as int, end as int));
            if end < n {
                assert(rest.skip(end - start + 1) =~= chars@.skip(end + 1));
            } else {
                assert(rest.take(end - start) =~= rest);
            }
            assert(segments(rest)[0] == chars@.subrange(start as int, end as int));
            assert(segments(chars@)[done.len() as int] == segments(rest)[0]);
        }
        match parse_range(line, &chars, start, end) {
            None => {
                proof {
                    let segs = segments(chars@);
                    assert forall|j: int| 0 <= j < done.len() implies parse_segment(
                        #[trigger] segs[j],
                    ) is Some by {
                        assert(segs[j] == done[j]);
                        assert(parse_segment(done[j]) == Some(commands@[j]@));
                    }
                }
                return Err(ParseError::EmptyCommand { segment: commands.len() });
            },
            Some(command) => {
                commands.push(command);
            },
        }
        proof {
            done = done.push(chars@.subrange(start as int, end as int));
        }
        if end == n {
            proof {
                assert(segments(chars@) =~= done);
            }
            return Ok(commands);
        }
        proof {
            assert(segments(chars@) =~= done + segments(chars@.skip(end + 1)));
        }
        start = end + 1;
    }
}

} // verus!
