//! The pipeline parser: a line of input becomes the stages of a pipeline.
use crate::text::{lemma_trim, to_chars, trim, trim_chars};
use crate::token::{
    first_word, lemma_first_token, lemma_strip_quotes, strip_quotes, tokenize, tokens,
};
use vstd::prelude::*;
use vstd::slice::slice_subrange;

verus! {

/// One stage of a pipeline: the name of a command, and its arguments in
/// order.
#[derive(Debug, Clone, PartialEq, Eq)]
pub struct CommandSpec {
    pub cmd: String,
    pub args: Vec<String>,
}

/// The view of a [`CommandSpec`]: what it holds, as sequences of
/// characters.
pub struct Stage {
    pub cmd: Seq<char>,
    pub args: Seq<Seq<char>>,
}

impl View for CommandSpec {
    type V = Stage;

    open spec fn view(&self) -> Stage {
        Stage { cmd: self.cmd@, args: self.args.deep_view() }
    }
}

impl DeepView for CommandSpec {
    type V = Stage;

    open spec fn deep_view(&self) -> Stage {
        self@
    }
}

impl CommandSpec {
    /// The stage that runs `cmd` on `args`.
    pub fn new(cmd: &str, args: &[&str]) -> (command: CommandSpec)
        ensures
            command@ == (Stage { cmd: cmd@, args: args.deep_view() }),
    {
        let mut owned: Vec<String> = Vec::new();
        let mut i: usize = 0;
        while i < args.len()
            invariant
                i <= args.len(),
                owned.len() == i,
                forall|j: int| 0 <= j < i ==> owned@[j]@ == args@[j]@,
            decreases args.len() - i,
        {
            owned.push(String::from_str(args[i]));
            i = i + 1;
        }
        assert(owned.deep_view() =~= args.deep_view());
        CommandSpec { cmd: String::from_str(cmd), args: owned }
    }
}

/// The character that parts the stages of a pipeline.
pub open spec fn is_bar(c: char) -> bool {
    c == '|'
}

/// The position of the first `|` of `s` at or after `from`; the length of
/// `s` if there is none.
pub open spec fn next_bar(s: Seq<char>, from: nat) -> nat
    decreases s.len() - from,
{
    if from >= s.len() {
        s.len()
    } else if is_bar(s[from as int]) {
        from
    } else {
        next_bar(s, from + 1)
    }
}

/// The stage that a chunk of a line stands for: none if the chunk holds
/// white space only; otherwise the first word of the trimmed chunk is the
/// command and the other words are its arguments.
pub open spec fn stage_of(chunk: Seq<char>) -> Seq<Stage> {
    let words = tokens(trim(chunk));
    if words.len() == 0 {
        Seq::empty()
    } else {
        seq![Stage { cmd: words[0], args: words.skip(1) }]
    }
}

/// The chunks of `line`: what stands before, between and after its `|`
/// characters. There is one more chunk than there are `|`.
pub open spec fn chunks(line: Seq<char>) -> Seq<Seq<char>>
    decreases line.len(),
{
    let bar = next_bar(line, 0);
    if bar < line.len() {
        seq![line.take(bar as int)] + chunks(line.skip(bar as int + 1))
    } else {
        seq![line]
    }
}

/// The stages that `chunks` stand for, in order.
pub open spec fn stages_of(chunks: Seq<Seq<char>>) -> Seq<Stage>
    decreases chunks.len(),
{
    if chunks.len() == 0 {
        Seq::empty()
    } else {
        stage_of(chunks[0]) + stages_of(chunks.drop_first())
    }
}

/// The pipeline that `line` stands for: the line is cut at every `|`, and
/// each chunk gives its stage, if it has one.
pub open spec fn pipeline_of(line: Seq<char>) -> Seq<Stage> {
    stages_of(chunks(line))
}

/// A chunk gives a stage exactly if it holds more than white space. The
/// name of the command is then the first word of the trimmed chunk without
/// its quote characters: it is empty if that word is made of quote
/// characters alone, and only then.
pub proof fn lemma_command_name(chunk: Seq<char>)
    ensures
        stage_of(chunk).len() == (if trim(chunk).len() > 0 {
            1nat
        } else {
            0nat
        }),
        trim(chunk).len() > 0 ==> {
            let word = first_word(trim(chunk));
            &&& word.len() > 0
            &&& stage_of(chunk)[0].cmd == strip_quotes(word)
            &&& stage_of(chunk)[0].cmd.len() == 0 <==> (forall|j: int|
                0 <= j < word.len() ==> word[j] == '"')
        },
{
    if trim(chunk).len() > 0 {
        lemma_trim(chunk);
        lemma_first_token(trim(chunk));
        lemma_strip_quotes(first_word(trim(chunk)));
    }
}

/// Every stage comes from a chunk: stage `k` of what `chunks` stand for is
/// the stage of one of them.
pub proof fn lemma_stage_has_chunk(chunks: Seq<Seq<char>>, k: int) -> (c: int)
    requires
        0 <= k < stages_of(chunks).len(),
    ensures
        0 <= c < chunks.len(),
        stage_of(chunks[c]) == seq![stages_of(chunks)[k]],
    decreases chunks.len(),
{
    let first = stage_of(chunks[0]);
    if k < first.len() {
        0
    } else {
        let rest = chunks.drop_first();
        let c = lemma_stage_has_chunk(rest, k - first.len());
        c + 1
    }
}

/// No command of a pipeline has an empty name, unless a chunk of the line
/// begins with a word made of quote characters alone: stage `k` of the
/// pipeline of `line` comes from a chunk that holds more than white space,
/// and its name is empty exactly if the first word of that chunk is made of
/// quote characters.
pub proof fn lemma_pipeline_command_name(line: Seq<char>, k: int) -> (chunk: Seq<char>)
    requires
        0 <= k < pipeline_of(line).len(),
    ensures
        chunks(line).contains(chunk),
        trim(chunk).len() > 0,
        pipeline_of(line)[k].cmd == strip_quotes(first_word(trim(chunk))),
        pipeline_of(line)[k].cmd.len() == 0 <==> (forall|j: int|
            0 <= j < first_word(trim(chunk)).len() ==> first_word(trim(chunk))[j] == '"'),
{
    let c = lemma_stage_has_chunk(chunks(line), k);
    let chunk = chunks(line)[c];
    lemma_command_name(chunk);
    chunk
}

/// `next_bar` answers `bar` when no `|` lies in `from..bar` and one stands at
/// `bar`, or `bar` is the end.
pub proof fn lemma_next_bar(s: Seq<char>, from: nat, bar: nat)
    requires
        from <= bar <= s.len(),
        forall|j: int| from <= j < bar ==> !is_bar(#[trigger] s[j]),
        bar == s.len() || is_bar(s[bar as int]),
    ensures
        next_bar(s, from) == bar,
    decreases bar - from,
{
    if from < bar {
        lemma_next_bar(s, from + 1, bar);
    }
}

/// Adds to `pipeline` the stage that `chunk` stands for, if it has one.
fn push_stage(pipeline: &mut Vec<CommandSpec>, chunk: &[char])
    ensures
        final(pipeline).deep_view() == old(pipeline).deep_view() + stage_of(chunk@),
{
    let trimmed = trim_chars(chunk);
    if trimmed.len() == 0 {
        return ;
    }
    let mut words = tokenize(trimmed);
    if words.len() == 0 {
        return ;
    }
    let ghost all = words.deep_view();
    let cmd = words.remove(0);
    assert(words.deep_view() == all.skip(1));
    let stage = CommandSpec { cmd, args: words };
    pipeline.push(stage);
}

/// Parses a line of input into the stages of a pipeline. The line is cut at
/// every `|`; a chunk of white space gives no stage, so that a `|` at either
/// end, or two in a row, do no harm; the words of any other chunk are its
/// command and arguments.
pub fn parse_pipeline(line: &str) -> (pipeline: Vec<CommandSpec>)
    ensures
        pipeline.deep_view() == pipeline_of(line@),
{
    let text = to_chars(line);
    let chars = text.as_slice();
    let ghost s = chars@;
    let mut pipeline: Vec<CommandSpec> = Vec::new();
    let mut start: usize = 0;
    let mut i: usize = 0;
    assert(s.skip(0) == s);
    while i < chars.len()
        invariant
            s == chars@,
            start <= i <= s.len(),
            pipeline_of(s) == pipeline.deep_view() + pipeline_of(s.skip(start as int)),
            forall|j: int| start <= j < i ==> !is_bar(#[trigger] s[j]),
        decreases chars.len() - i,
    {
        if chars[i] == '|' {
            proof {
                let rest = s.skip(start as int);
                lemma_next_bar(rest, 0, (i - start) as nat);
                assert(rest.take(i - start) == s.subrange(start as int, i as int));
                assert(rest.skip(i - start + 1) == s.skip(i + 1));
                assert(chunks(rest).drop_first() == chunks(s.skip(i + 1)));
            }
            push_stage(&mut pipeline, slice_subrange(chars, start, i));
            start = i + 1;
        }
        i = i + 1;
    }
    proof {
        let rest = s.skip(start as int);
        lemma_next_bar(rest, 0, (i - start) as nat);
        assert(stages_of(chunks(rest).drop_first()) == Seq::<Stage>::empty());
    }
    push_stage(&mut pipeline, slice_subrange(chars, start, i));
    pipeline
}

} // verus!
