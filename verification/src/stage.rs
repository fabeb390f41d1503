//! Stages and pipelines: what a command line means.

use crate::text::{
    is_space, lemma_blank_has_no_words, lemma_segments_from, lemma_spaces_end, lemma_spaces_start,
    lemma_trimmed, lemma_words, segments, split_pipes, split_whitespace, texts, trim, trimmed,
    words,
};
use vstd::prelude::*;

verus! {

/// One program of a pipeline, with its arguments.
///
/// The program name is empty where the segment held no word at all.
#[derive(Debug, PartialEq, Eq)]
pub struct Stage {
    pub program: String,
    pub args: Vec<String>,
}

/// A stage as plain sequences of characters.
pub struct StageView {
    pub program: Seq<char>,
    pub args: Seq<Seq<char>>,
}

impl View for Stage {
    type V = StageView;

    open spec fn view(&self) -> StageView {
        StageView { program: self.program@, args: texts(self.args@) }
    }
}

/// The views of a list of stages.
pub open spec fn stage_views(stages: Seq<Stage>) -> Seq<StageView> {
    stages.map_values(|stage: Stage| stage@)
}

/// The stage that a list of words stands for: the first word names the
/// program, the others are its arguments. No word gives the empty name.
pub open spec fn stage_from_words(w: Seq<Seq<char>>) -> StageView {
    if w.len() == 0 {
        nameless()
    } else {
        StageView { program: w[0], args: w.subrange(1, w.len() as int) }
    }
}

/// The stage that one segment of a line stands for: the segment is trimmed
/// and cut into words.
pub open spec fn stage_of(segment: Seq<char>) -> StageView {
    stage_from_words(words(trimmed(segment)))
}

/// The pipeline that a line stands for: the line is trimmed and cut at each
/// separator, and every segment gives one stage, in the order of the line.
pub open spec fn pipeline_of(line: Seq<char>) -> Seq<StageView> {
    segments(trimmed(line)).map_values(|segment: Seq<char>| stage_of(segment))
}

/// The stage without a name and without arguments.
pub open spec fn nameless() -> StageView {
    StageView { program: Seq::empty(), args: Seq::empty() }
}

/// Every line has at least one stage.
pub proof fn lemma_pipeline_has_a_stage(line: Seq<char>)
    ensures
        pipeline_of(line).len() >= 1,
{
    lemma_segments_from(trimmed(line), 0);
}

/// A line of nothing but whitespace, the empty line among them, has one
/// stage, and that stage has no name.
pub proof fn lemma_blank_line(line: Seq<char>)
    requires
        forall|k: int| 0 <= k < line.len() ==> is_space(#[trigger] line[k]),
    ensures
        pipeline_of(line) == seq![nameless()],
{
    lemma_spaces_end(line, 0);
    lemma_spaces_start(line, line.len() as int);
    lemma_blank_has_no_words(line, 0);
    assert(Seq::<char>::empty().subrange(0, 0) =~= Seq::<char>::empty());
}

/// Whether `token` holds at least one character and no whitespace.
pub open spec fn is_token(token: Seq<char>) -> bool {
    token.len() > 0 && forall|j: int| 0 <= j < token.len() ==> !is_space(#[trigger] token[j])
}

/// What a stage can look like. Its arguments are tokens. Its name is a
/// token too, unless the segment holds nothing but whitespace: then, and
/// only then, the stage is the one without a name, which has no arguments.
pub proof fn lemma_stage_of(segment: Seq<char>)
    ensures
        forall|k: int|
            0 <= k < stage_of(segment).args.len() ==> is_token(#[trigger] stage_of(segment).args[k]),
        stage_of(segment).program.len() > 0 ==> is_token(stage_of(segment).program),
        stage_of(segment).program.len() == 0 <==> forall|k: int|
            0 <= k < segment.len() ==> is_space(#[trigger] segment[k]),
        stage_of(segment).program.len() == 0 ==> stage_of(segment) == nameless(),
{
    let t = trimmed(segment);
    lemma_trimmed(segment);
    lemma_words(t);
    if forall|k: int| 0 <= k < segment.len() ==> is_space(#[trigger] segment[k]) {
        lemma_spaces_end(segment, 0);
        lemma_spaces_start(segment, segment.len() as int);
        lemma_blank_has_no_words(t, 0);
    } else {
        lemma_spaces_end(t, 0);
    }
}

impl Clone for Stage {
    fn clone(&self) -> (copy: Self)
        ensures
            copy@ == self@,
    {
        Stage { program: self.program.clone(), args: copy_texts(&self.args) }
    }
}

/// A copy of a list of strings.
pub fn copy_texts(list: &Vec<String>) -> (copy: Vec<String>)
    ensures
        texts(copy@) == texts(list@),
        copy@.len() == list@.len(),
{
    let mut copy: Vec<String> = Vec::new();
    let n = list.len();
    let mut i: usize = 0;
    while i < n
        invariant
            i <= n,
            n == list.len(),
            copy.len() == i,
            forall|k: int| 0 <= k < i ==> copy@[k]@ == list@[k]@,
        decreases n - i,
    {
        copy.push(list[i].clone());
        i += 1;
    }
    copy
}

impl Stage {
    /// Reads one segment of a line as a stage.
    pub fn parse(segment: &str) -> (stage: Stage)
        ensures
            stage@ == stage_of(segment@),
    {
        let mut w = split_whitespace(trim(segment));
        if w.len() == 0 {
            let stage = Stage { program: String::new(), args: Vec::new() };
            assert(texts(stage.args@) =~= Seq::empty());
            stage
        } else {
            let ghost all = w@;
            let program = w.remove(0);
            assert(texts(w@) =~= texts(all).subrange(1, all.len() as int));
            Stage { program, args: w }
        }
    }
}

/// Reads a command line as a pipeline. There is always at least one stage:
/// a blank line gives one stage with the empty program name.
pub fn parse_line(line: &str) -> (stages: Vec<Stage>)
    ensures
        stage_views(stages@) == pipeline_of(line@),
        stages.len() >= 1,
{
    let parts = split_pipes(trim(line));
    let n = parts.len();
    let mut stages: Vec<Stage> = Vec::new();
    let mut i: usize = 0;
    while i < n
        invariant
            i <= n,
            n == parts.len(),
            stages.len() == i,
            texts(parts@) == segments(trimmed(line@)),
            forall|k: int| 0 <= k < i ==> stages@[k]@ == stage_of(#[trigger] parts@[k]@),
        decreases n - i,
    {
        stages.push(Stage::parse(parts[i].as_str()));
        i += 1;
    }
    assert(stage_views(stages@) =~= pipeline_of(line@));
    stages
}

} // verus!
