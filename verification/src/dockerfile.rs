//! Dockerfile instructions: their grammar, and the plan of the commands that
//! build an image layer from them.

use crate::number::{parse_u16, parsed_u16};
use crate::text::{
    before_first, find_from, from_chars, from_chars_list, index_of, is_char, lemma_leading,
    not_char, owned, slice, split_at_first, split_once, str_eq, string_views, stripped, to_chars,
    trim, trim_matches, trimmed, uppercase_of, views,
};
use crate::words::{lines, lines_of};
use vstd::prelude::*;

verus! {

/// One instruction of a Dockerfile.
#[derive(Debug, Clone)]
pub enum Instruction {
    From { image: String, tag: String },
    Run(Vec<String>),
    Copy { src: String, dest: String },
    Workdir(String),
    Cmd(Vec<String>),
    Env { key: String, value: String },
    Expose(u16),
    Label { key: String, value: String },
}

/// What an [`Instruction`] holds, as mathematical values.
pub enum InstructionView {
    From { image: Seq<char>, tag: Seq<char> },
    Run(Seq<Seq<char>>),
    Copy { src: Seq<char>, dest: Seq<char> },
    Workdir(Seq<char>),
    Cmd(Seq<Seq<char>>),
    Env { key: Seq<char>, value: Seq<char> },
    Expose(u16),
    Label { key: Seq<char>, value: Seq<char> },
}

impl View for Instruction {
    type V = InstructionView;

    open spec fn view(&self) -> InstructionView {
        match *self {
            Instruction::From { image, tag } => InstructionView::From { image: image@, tag: tag@ },
            Instruction::Run(words) => InstructionView::Run(string_views(words@)),
            Instruction::Copy { src, dest } => InstructionView::Copy { src: src@, dest: dest@ },
            Instruction::Workdir(dir) => InstructionView::Workdir(dir@),
            Instruction::Cmd(words) => InstructionView::Cmd(string_views(words@)),
            Instruction::Env { key, value } => InstructionView::Env { key: key@, value: value@ },
            Instruction::Expose(port) => InstructionView::Expose(port),
            Instruction::Label { key, value } => InstructionView::Label {
                key: key@,
                value: value@,
            },
        }
    }
}

/// The views of a list of instructions.
pub open spec fn instruction_views(v: Seq<Instruction>) -> Seq<InstructionView> {
    Seq::new(v.len(), |i: int| v[i]@)
}

/// Why a Dockerfile is refused, or why a build stops.
#[derive(Debug, Clone, PartialEq, Eq, Structural)]
pub enum BuildError {
    /// `COPY` names fewer than two operands.
    CopyMissingOperands,
    /// `RUN` stands before any `FROM`.
    RunBeforeFrom,
}

impl BuildError {
    /// The message of this error.
    pub fn message(&self) -> (out: String)
        ensures
            out@ == match *self {
                BuildError::CopyMissingOperands => "COPY requires src and dest"@,
                BuildError::RunBeforeFrom => "RUN before FROM is not allowed"@,
            },
    {
        match self {
            BuildError::CopyMissingOperands => owned("COPY requires src and dest"),
            BuildError::RunBeforeFrom => owned("RUN before FROM is not allowed"),
        }
    }
}

// ---------------------------------------------------------------------------
// Splitting a command line into words
// ---------------------------------------------------------------------------

/// Where the word splitter stands after some characters.
pub struct SplitState {
    /// The words that are complete.
    pub words: Seq<Seq<char>>,
    /// The word under construction.
    pub current: Seq<char>,
    /// Whether a quotation is open.
    pub in_quote: bool,
    /// The character that opened the quotation.
    pub quote: char,
}

/// The splitter's state after it has read `c`.
pub open spec fn split_step(st: SplitState, c: char) -> SplitState {
    if (c == '"' || c == '\'') && !st.in_quote {
        SplitState { in_quote: true, quote: c, ..st }
    } else if st.in_quote && c == st.quote {
        SplitState { in_quote: false, ..st }
    } else if (c == ' ' || c == '\t') && !st.in_quote {
        if st.current.len() > 0 {
            SplitState { words: st.words.push(st.current), current: Seq::empty(), ..st }
        } else {
            st
        }
    } else {
        SplitState { current: st.current.push(c), ..st }
    }
}

/// The splitter's state after it has read all of `s`.
pub open spec fn split_state(s: Seq<char>) -> SplitState
    decreases s.len(),
{
    if s.len() == 0 {
        SplitState { words: Seq::empty(), current: Seq::empty(), in_quote: false, quote: ' ' }
    } else {
        split_step(split_state(s.drop_last()), s.last())
    }
}

/// The words of a command line: runs of characters separated by blanks and
/// tabs, where a quotation in single or double quotes keeps its blanks and
/// loses its quotes. A word that would be empty is left out.
pub open spec fn shell_words(s: Seq<char>) -> Seq<Seq<char>> {
    let st = split_state(s);
    if st.current.len() > 0 {
        st.words.push(st.current)
    } else {
        st.words
    }
}

fn shell_split_chars(v: &Vec<char>) -> (out: Vec<Vec<char>>)
    ensures
        views(out@) == shell_words(v@),
{
    let mut result: Vec<Vec<char>> = Vec::new();
    let mut current: Vec<char> = Vec::new();
    let mut in_quote = false;
    let mut quote_char = ' ';
    let mut i: usize = 0;
    proof {
        assert(views(result@) =~= Seq::<Seq<char>>::empty());
        assert(v@.take(0) =~= Seq::<char>::empty());
    }
    while i < v.len()
        invariant
            i <= v.len(),
            split_state(v@.take(i as int)) == (SplitState {
                words: views(result@),
                current: current@,
                in_quote: in_quote,
                quote: quote_char,
            }),
        decreases v.len() - i,
    {
        let c = v[i];
        proof {
            assert(v@.take(i + 1).drop_last() =~= v@.take(i as int));
            assert(v@.take(i + 1).last() == c);
        }
        let ghost before = views(result@);
        if (c == '"' || c == '\'') && !in_quote {
            in_quote = true;
            quote_char = c;
        } else if in_quote && c == quote_char {
            in_quote = false;
        } else if (c == ' ' || c == '\t') && !in_quote {
            if current.len() > 0 {
                let ghost word = current@;
                result.push(current);
                current = Vec::new();
                proof {
                    assert(views(result@) =~= before.push(word));
                }
            }
        } else {
            current.push(c);
        }
        i += 1;
    }
    proof {
        assert(v@.take(v.len() as int) =~= v@);
    }
    if current.len() > 0 {
        let ghost before = views(result@);
        let ghost word = current@;
        result.push(current);
        proof {
            assert(views(result@) =~= before.push(word));
        }
    }
    result
}

/// Splits a command line into its words.
pub fn shell_split(s: &str) -> (out: Vec<String>)
    ensures
        string_views(out@) == shell_words(s@),
{
    let v = to_chars(s);
    let words = shell_split_chars(&v);
    from_chars_list(&words)
}

// ---------------------------------------------------------------------------
// The grammar of one instruction
// ---------------------------------------------------------------------------

/// `s` without white space at its ends and then without double quotes at
/// its ends.
pub open spec fn unquoted(s: Seq<char>) -> Seq<char> {
    stripped(trimmed(s), is_char('"'))
}

/// `s` cut at its first `=`, or else at its first blank.
pub open spec fn split_assignment(s: Seq<char>) -> Option<(Seq<char>, Seq<char>)> {
    match split_at_first(s, '=') {
        Some(pair) => Some(pair),
        None => split_at_first(s, ' '),
    }
}

/// The instruction that a line stands for, given its keyword in upper case
/// and what follows the keyword, trimmed. `Ok(None)` is a line that is
/// passed over: an unknown keyword, an `ENV` or `LABEL` without a value, an
/// `EXPOSE` whose port is no number.
pub open spec fn instruction_of(keyword: Seq<char>, rest: Seq<char>) -> Result<
    Option<InstructionView>,
    BuildError,
> {
    if keyword == "FROM"@ {
        match split_at_first(rest, ':') {
            Some((image, tag)) => Ok(Some(InstructionView::From { image, tag })),
            None => Ok(Some(InstructionView::From { image: rest, tag: "latest"@ })),
        }
    } else if keyword == "RUN"@ {
        Ok(Some(InstructionView::Run(shell_words(rest))))
    } else if keyword == "COPY"@ {
        match split_at_first(rest, ' ') {
            Some((src, dest)) => Ok(Some(InstructionView::Copy { src, dest })),
            None => Err(BuildError::CopyMissingOperands),
        }
    } else if keyword == "WORKDIR"@ {
        Ok(Some(InstructionView::Workdir(rest)))
    } else if keyword == "CMD"@ {
        Ok(Some(InstructionView::Cmd(shell_words(rest))))
    } else if keyword == "ENV"@ {
        match split_assignment(rest) {
            Some((key, value)) => Ok(
                Some(InstructionView::Env { key: trimmed(key), value: unquoted(value) }),
            ),
            None => Ok(None),
        }
    } else if keyword == "EXPOSE"@ {
        match parsed_u16(before_first(rest, '/')) {
            Some(port) => Ok(Some(InstructionView::Expose(port))),
            None => Ok(None),
        }
    } else if keyword == "LABEL"@ {
        match split_at_first(rest, '=') {
            Some((key, value)) => Ok(
                Some(InstructionView::Label { key: trimmed(key), value: unquoted(value) }),
            ),
            None => Ok(None),
        }
    } else {
        Ok(None)
    }
}

fn unquote(v: &Vec<char>) -> (out: String)
    ensures
        out@ == unquoted(v@),
{
    let t = trim(v);
    let u = trim_matches(&t, '"');
    from_chars(&u)
}

fn trimmed_string(v: &Vec<char>) -> (out: String)
    ensures
        out@ == trimmed(v@),
{
    let t = trim(v);
    from_chars(&t)
}

/// Reads one instruction from its keyword, given in upper case, and from
/// what follows the keyword.
pub fn parse_instruction(keyword: &str, rest: &str) -> (r: Result<Option<Instruction>, BuildError>)
    ensures
        match r {
            Ok(Some(i)) => instruction_of(keyword@, rest@) == Ok::<
                Option<InstructionView>,
                BuildError,
            >(Some(i@)),
            Ok(None) => instruction_of(keyword@, rest@) == Ok::<
                Option<InstructionView>,
                BuildError,
            >(None),
            Err(e) => instruction_of(keyword@, rest@) == Err::<Option<InstructionView>, BuildError>(
                e,
            ),
        },
{
    let r = to_chars(rest);
    if str_eq(keyword, "FROM") {
        match split_once(&r, ':') {
            Some((image, tag)) => Ok(
                Some(Instruction::From { image: from_chars(&image), tag: from_chars(&tag) }),
            ),
            None => Ok(Some(Instruction::From { image: owned(rest), tag: owned("latest") })),
        }
    } else if str_eq(keyword, "RUN") {
        Ok(Some(Instruction::Run(shell_split(rest))))
    } else if str_eq(keyword, "COPY") {
        match split_once(&r, ' ') {
            Some((src, dest)) => Ok(
                Some(Instruction::Copy { src: from_chars(&src), dest: from_chars(&dest) }),
            ),
            None => Err(BuildError::CopyMissingOperands),
        }
    } else if str_eq(keyword, "WORKDIR") {
        Ok(Some(Instruction::Workdir(owned(rest))))
    } else if str_eq(keyword, "CMD") {
        Ok(Some(Instruction::Cmd(shell_split(rest))))
    } else if str_eq(keyword, "ENV") {
        let pair = match split_once(&r, '=') {
            Some(p) => Some(p),
            None => split_once(&r, ' '),
        };
        match pair {
            Some((key, value)) => Ok(
                Some(Instruction::Env { key: trimmed_string(&key), value: unquote(&value) }),
            ),
            None => Ok(None),
        }
    } else if str_eq(keyword, "EXPOSE") {
        let slash = find_from(&r, '/', 0);
        proof {
            assert(r@.skip(0) =~= r@);
            assert(r@.subrange(0, slash as int) =~= r@.take(slash as int));
        }
        let number = slice(&r, 0, slash);
        match parse_u16(&number) {
            Some(port) => Ok(Some(Instruction::Expose(port))),
            None => Ok(None),
        }
    } else if str_eq(keyword, "LABEL") {
        match split_once(&r, '=') {
            Some((key, value)) => Ok(
                Some(Instruction::Label { key: trimmed_string(&key), value: unquote(&value) }),
            ),
            None => Ok(None),
        }
    } else {
        Ok(None)
    }
}

// ---------------------------------------------------------------------------
// The grammar of a Dockerfile
// ---------------------------------------------------------------------------

/// The keyword of a line: what stands before its first blank.
pub open spec fn keyword_of(line: Seq<char>) -> Seq<char> {
    before_first(line, ' ')
}

/// What follows the keyword of a line, trimmed.
pub open spec fn operands_of(line: Seq<char>) -> Seq<char> {
    match split_at_first(line, ' ') {
        Some((_, rest)) => trimmed(rest),
        None => Seq::empty(),
    }
}

/// Whether a trimmed line is passed over: it is empty or a comment.
pub open spec fn is_blank_or_comment(line: Seq<char>) -> bool {
    line.len() == 0 || line[0] == '#'
}

/// What one line of a Dockerfile stands for.
pub open spec fn line_instruction(raw: Seq<char>) -> Result<Option<InstructionView>, BuildError> {
    let line = trimmed(raw);
    if is_blank_or_comment(line) {
        Ok(None)
    } else {
        instruction_of(uppercase_of(keyword_of(line)), operands_of(line))
    }
}

/// `more` after `first`, where `more` is no error.
pub open spec fn prepend(
    first: Seq<InstructionView>,
    more: Result<Seq<InstructionView>, BuildError>,
) -> Result<Seq<InstructionView>, BuildError> {
    match more {
        Ok(rest) => Ok(first + rest),
        Err(e) => Err(e),
    }
}

/// The instructions that a list of lines stands for, in order; the error of
/// the first line that is refused.
pub open spec fn instructions_of(lines: Seq<Seq<char>>) -> Result<Seq<InstructionView>, BuildError>
    decreases lines.len(),
{
    if lines.len() == 0 {
        Ok(Seq::empty())
    } else {
        match line_instruction(lines[0]) {
            Err(e) => Err(e),
            Ok(None) => instructions_of(lines.skip(1)),
            Ok(Some(i)) => prepend(seq![i], instructions_of(lines.skip(1))),
        }
    }
}

/// The instructions that the text of a Dockerfile stands for.
pub open spec fn dockerfile_of(content: Seq<char>) -> Result<Seq<InstructionView>, BuildError> {
    instructions_of(lines_of(content))
}

/// Reads the instruction of one line.
pub fn parse_line(raw: &Vec<char>) -> (r: Result<Option<Instruction>, BuildError>)
    ensures
        match r {
            Ok(Some(i)) => line_instruction(raw@) == Ok::<Option<InstructionView>, BuildError>(
                Some(i@),
            ),
            Ok(None) => line_instruction(raw@) == Ok::<Option<InstructionView>, BuildError>(None),
            Err(e) => line_instruction(raw@) == Err::<Option<InstructionView>, BuildError>(e),
        },
{
    let line = trim(raw);
    if line.len() == 0 || line[0] == '#' {
        return Ok(None);
    }
    let cut = find_from(&line, ' ', 0);
    proof {
        assert(line@.skip(0) =~= line@);
        assert(line@.subrange(0, cut as int) =~= line@.take(cut as int));
    }
    let keyword = from_chars(&slice(&line, 0, cut));
    let rest = if cut < line.len() {
        proof {
            assert(line@.subrange(cut + 1, line.len() as int) =~= line@.skip(cut + 1));
        }
        trimmed_string(&slice(&line, cut + 1, line.len()))
    } else {
        String::new()
    };
    let upper = keyword.as_str().to_uppercase();
    parse_instruction(upper.as_str(), rest.as_str())
}

/// Reads a Dockerfile: one instruction per line, comments and blank lines
/// passed over.
pub fn parse_dockerfile(content: &str) -> (r: Result<Vec<Instruction>, BuildError>)
    ensures
        match r {
            Ok(list) => dockerfile_of(content@) == Ok::<Seq<InstructionView>, BuildError>(
                instruction_views(list@),
            ),
            Err(e) => dockerfile_of(content@) == Err::<Seq<InstructionView>, BuildError>(e),
        },
{
    let text = to_chars(content);
    let all = lines(&text);
    let mut instructions: Vec<Instruction> = Vec::new();
    let mut i: usize = 0;
    proof {
        assert(views(all@).skip(0) =~= views(all@));
        assert(instruction_views(instructions@) =~= Seq::<InstructionView>::empty());
        lemma_prepend_empty(instructions_of(views(all@)));
    }
    while i < all.len()
        invariant
            i <= all.len(),
            views(all@) == lines_of(content@),
            dockerfile_of(content@) == prepend(
                instruction_views(instructions@),
                instructions_of(views(all@).skip(i as int)),
            ),
        decreases all.len() - i,
    {
        let ghost rest = views(all@).skip(i as int);
        let ghost before = instruction_views(instructions@);
        proof {
            assert(rest[0] == all[i as int]@);
            assert(rest.skip(1) =~= views(all@).skip(i + 1));
        }
        match parse_line(&all[i]) {
            Err(e) => {
                return Err(e);
            },
            Ok(None) => {},
            Ok(Some(instruction)) => {
                let ghost one = instruction@;
                instructions.push(instruction);
                proof {
                    assert(instruction_views(instructions@) =~= before.push(one));
                    lemma_prepend_twice(before, one, instructions_of(rest.skip(1)));
                }
            },
        }
        i += 1;
    }
    proof {
        assert(views(all@).skip(all.len() as int) =~= Seq::<Seq<char>>::empty());
        assert(instruction_views(instructions@) + Seq::<InstructionView>::empty()
            =~= instruction_views(instructions@));
    }
    Ok(instructions)
}

/// `COPY` is accepted if and only if a blank stands among its operands: it
/// is accepted with a source and a destination, and refused without
/// operands.
pub proof fn lemma_copy_needs_two_operands(rest: Seq<char>)
    ensures
        instruction_of("COPY"@, rest) is Ok <==> rest.contains(' '),
        instruction_of("COPY"@, Seq::empty()) is Err,
{
    reveal_strlit("COPY");
    reveal_strlit("FROM");
    reveal_strlit("RUN");
    assert("COPY"@[0] != "FROM"@[0]);
    assert("COPY"@.len() != "RUN"@.len());
    lemma_leading(rest, not_char(' '));
    if rest.contains(' ') {
        let j = choose|j: int| 0 <= j < rest.len() && rest[j] == ' ';
        if index_of(rest, ' ') > j {
            assert(not_char(' ')(rest[j]));
        }
    }
    lemma_leading(Seq::<char>::empty(), not_char(' '));
}

/// `EXPOSE` is never refused: a port that is no number is passed over.
pub proof fn lemma_expose_is_never_fatal(rest: Seq<char>)
    ensures
        instruction_of("EXPOSE"@, rest) is Ok,
{
    reveal_strlit("EXPOSE");
    reveal_strlit("COPY");
    assert("EXPOSE"@.len() != "COPY"@.len());
}

proof fn lemma_prepend_empty(more: Result<Seq<InstructionView>, BuildError>)
    ensures
        prepend(Seq::empty(), more) == more,
{
    match more {
        Ok(rest) => {
            assert(Seq::<InstructionView>::empty() + rest =~= rest);
        },
        Err(_) => {},
    }
}

proof fn lemma_prepend_twice(
    before: Seq<InstructionView>,
    one: InstructionView,
    more: Result<Seq<InstructionView>, BuildError>,
)
    ensures
        prepend(before, prepend(seq![one], more)) == prepend(before.push(one), more),
{
    match more {
        Ok(rest) => {
            assert(before + (seq![one] + rest) =~= before.push(one) + rest);
        },
        Err(_) => {},
    }
}

} // verus!
