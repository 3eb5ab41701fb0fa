//! The words of one command, substituted and expanded in turn until the command
//! can be dispatched.

use vstd::prelude::*;

use crate::code::Code;
use crate::errors::raised;
use crate::eval::{element_offset, literal_positions, word_line, ArgBuilder};
use crate::lines::ElementOffset;
use crate::state::Interp;

verus! {

/// One word of a parsed command.
#[derive(Debug, Clone, Copy, PartialEq, Eq, Structural)]
pub struct ParsedWord {
    /// Where the word begins.
    pub start: usize,
    /// Whether it is a literal, without anything to substitute.
    pub literal: bool,
    /// Whether its value is a list that stands for several arguments.
    pub expand: bool,
}

/// What substituting a word gave.
pub enum WordOutcome {
    /// It ended with this code, which ends the command.
    Failed(Code),
    /// The value, by what names it.
    Value(u64),
    /// The elements of a word that is expanded, with their offsets where the
    /// word is a list literal, or the message for a value that is no list.
    Elements { values: Result<Vec<u64>, Vec<u8>>, offsets: Option<Vec<ElementOffset>> },
}

/// What a command needs next.
#[derive(Debug, Clone, Copy, PartialEq, Eq, Structural)]
pub enum WordsStep {
    /// Substitute this word: its value is one argument.
    Substitute(usize),
    /// Substitute this word and split its value as a list: each element is an
    /// argument.
    Expand(usize),
    /// Dispatch the arguments.
    Dispatch,
    /// Nothing: every word was expanded to nothing.
    Done,
}

/// The words of a command, as far as they are substituted.
pub struct WordsRun {
    pub words: Vec<ParsedWord>,
    pub next: usize,
    pub args: ArgBuilder,
}

impl WordsRun {
    /// Whether the run is somewhere among its words.
    pub open spec fn valid(self) -> bool {
        self.next <= self.words@.len() && self.args.valid()
    }

    /// What is to be done.
    pub open spec fn due(self) -> WordsStep {
        if self.next < self.words@.len() {
            if self.words@[self.next as int].expand {
                WordsStep::Expand(self.next)
            } else {
                WordsStep::Substitute(self.next)
            }
        } else if self.args.values@.len() > 0 {
            WordsStep::Dispatch
        } else {
            WordsStep::Done
        }
    }

    /// The line of the next word.
    pub open spec fn line(self, src: Seq<u8>) -> int {
        word_line(
            src,
            self.args.cmd_line,
            self.args.first_start as int,
            self.words@[self.next as int].start as int,
        )
    }

    /// What is to be done.
    pub fn step(&self) -> (s: WordsStep)
        requires
            self.valid(),
        ensures
            s == self.due(),
    {
        if self.next < self.words.len() {
            if self.words[self.next].expand {
                WordsStep::Expand(self.next)
            } else {
                WordsStep::Substitute(self.next)
            }
        } else if self.args.values.len() > 0 {
            WordsStep::Dispatch
        } else {
            WordsStep::Done
        }
    }
}

/// The offsets that count: those of a literal word.
pub open spec fn literal_offsets(
    literal: bool,
    offsets: Option<Vec<ElementOffset>>,
) -> Option<Vec<ElementOffset>> {
    if literal {
        offsets
    } else {
        None
    }
}

/// `after` has the argument `value`, of a word at `line`, behind those of
/// `before`.
pub open spec fn word_added(
    before: ArgBuilder,
    after: ArgBuilder,
    value: u64,
    line: int,
    literal: bool,
) -> bool {
    &&& after.values@ == before.values@.push(value)
    &&& after.lines@ == before.lines@.push(line as u32)
    &&& after.literals@ == if before.in_file && literal {
        before.literals@.push(before.values@.len() as usize)
    } else {
        before.literals@
    }
    &&& after == (ArgBuilder {
        values: after.values,
        lines: after.lines,
        literals: after.literals,
        ..before
    })
}

/// `after` has the arguments `values`, of an expanded word at `line`, behind
/// those of `before`.
pub open spec fn elements_added(
    before: ArgBuilder,
    after: ArgBuilder,
    values: Seq<u64>,
    line: int,
    offsets: Option<Vec<ElementOffset>>,
) -> bool {
    &&& after.values@ == before.values@ + values
    &&& after.lines@.len() == before.lines@.len() + values.len()
    &&& after.lines@.take(before.lines@.len() as int) == before.lines@
    &&& forall|k: int|
        0 <= k < values.len() ==> after.lines@[before.lines@.len() + k] == line
            + #[trigger] element_offset(offsets, k).newlines
    &&& after.literals@ == before.literals@ + literal_positions(
        offsets,
        before.in_file,
        before.values@.len() as int,
        values.len() as int,
    )
    &&& after == (ArgBuilder {
        values: after.values,
        lines: after.lines,
        literals: after.literals,
        ..before
    })
}

/// Whether an outcome is one of the word `w`: a word with the marker gives
/// elements, any other one value.
pub open spec fn fits_word(outcome: WordOutcome, w: ParsedWord) -> bool {
    outcome is Failed || (outcome is Elements) == w.expand
}

/// What a word adds to the command: `r` is the code that ends the command with
/// it.
pub open spec fn word_taken(
    before: Interp,
    after: Interp,
    run: WordsRun,
    then: WordsRun,
    src: Seq<u8>,
    outcome: WordOutcome,
    r: Option<Code>,
) -> bool {
    let word = run.words@[run.next as int];
    &&& then.words == run.words
    &&& match outcome {
        WordOutcome::Failed(c) => r == Some(c) && then == run && after == before,
        WordOutcome::Value(v) => {
            &&& r is None && after == before
            &&& then.next == run.next + 1
            &&& word_added(run.args, then.args, v, run.line(src), word.literal)
        },
        WordOutcome::Elements { values: Err(m), .. } => {
            &&& r == Some(Code::Error) && then == run
            &&& raised(before, after, m@)
        },
        WordOutcome::Elements { values: Ok(vs), offsets } => {
            &&& r is None && after == before
            &&& then.next == run.next + 1
            &&& elements_added(
                run.args,
                then.args,
                vs@,
                run.line(src),
                literal_offsets(word.literal, offsets),
            )
        },
    }
}

/// A word without the marker is one argument, whatever its value; one with the
/// marker is as many as its value has elements, none among them.
pub proof fn only_the_marker_expands(
    before: Interp,
    after: Interp,
    run: WordsRun,
    then: WordsRun,
    src: Seq<u8>,
    outcome: WordOutcome,
)
    requires
        run.valid(),
        run.next < run.words@.len(),
        fits_word(outcome, run.words@[run.next as int]),
        word_taken(before, after, run, then, src, outcome, None),
    ensures
        run.due() is Substitute ==> (outcome matches WordOutcome::Value(v) && then.args.values@
            == run.args.values@.push(v)),
        run.due() is Expand ==> (outcome matches WordOutcome::Elements { values: Ok(vs), .. }
            && then.args.values@ == run.args.values@ + vs@),
{
}

impl Interp {
    /// Begins the words of a command. A command that could not be parsed whole
    /// fails before any of its words is substituted.
    pub fn eval_words(&mut self, parse_error: &Option<Vec<u8>>, words: Vec<ParsedWord>) -> (r:
        Result<WordsRun, Code>)
        ensures
            match *parse_error {
                Some(m) => r == Err::<WordsRun, Code>(Code::Error) && raised(
                    *old(self),
                    *final(self),
                    m@,
                ),
                None => {
                    &&& *final(self) == *old(self)
                    &&& r is Ok
                    &&& r->Ok_0.valid()
                    &&& r->Ok_0.words == words
                    &&& r->Ok_0.next == 0
                    &&& r->Ok_0.args.values@.len() == 0
                    &&& r->Ok_0.args.literals@.len() == 0
                    &&& r->Ok_0.args.first_start == if words@.len() == 0 {
                        0
                    } else {
                        words@[0].start
                    }
                    &&& r->Ok_0.args.cmd_line == if old(self).state.cmd_frames@.len() == 0 {
                        0
                    } else {
                        old(self).state.cmd_frames@.last().line
                    }
                    &&& r->Ok_0.args.in_file == (old(self).state.cmd_frames@.len() > 0 && old(
                        self).state.cmd_frames@.last().file is Some)
                },
            },
    {
        if let Some(m) = parse_error {
            return Err(self.error(m));
        }
        let first: usize = if words.len() == 0 {
            0
        } else {
            words[0].start
        };
        let args = ArgBuilder::begin(self, first);
        Ok(WordsRun { words, next: 0, args })
    }

    /// Goes on with what the next word gave: a word with the marker its elements,
    /// any other its value. Returns the code that ends the command where the
    /// word failed or is no list to expand.
    pub fn word_done(&mut self, run: &mut WordsRun, src: &[u8], outcome: &WordOutcome) -> (r: Option<
        Code,
    >)
        requires
            old(run).valid(),
            old(run).next < old(run).words@.len(),
            fits_word(*outcome, old(run).words@[old(run).next as int]),
            old(run).args.first_start <= old(run).words@[old(run).next as int].start,
            old(run).args.first_start <= src@.len(),
            old(run).line(src@) <= u32::MAX,
            *outcome matches WordOutcome::Elements { values: Ok(vs), offsets } ==> forall|k: int|
                0 <= k < vs@.len() ==> old(run).line(src@) + #[trigger] element_offset(
                    literal_offsets(old(run).words@[old(run).next as int].literal, offsets),
                    k,
                ).newlines <= u32::MAX,
        ensures
            final(run).valid(),
            word_taken(*old(self), *final(self), *old(run), *final(run), src@, *outcome, r),
    {
        let at = run.next;
        let total = run.words.len();
        assert(at < total);
        let word = run.words[at];
        match outcome {
            WordOutcome::Failed(c) => Some(*c),
            WordOutcome::Value(v) => {
                let line = run.args.line_of_word(src, word.start);
                run.args.push_word(*v, line, word.literal);
                run.next = at + 1;
                None
            },
            WordOutcome::Elements { values, offsets } => match values {
                Err(m) => Some(self.error(m)),
                Ok(vs) => {
                    let line = run.args.line_of_word(src, word.start);
                    if word.literal {
                        run.args.push_expanded(vs, line, offsets);
                    } else {
                        run.args.push_expanded(vs, line, &None);
                    }
                    run.next = at + 1;
                    None
                },
            },
        }
    }
}

/// The arguments of a command are the values of its words in order: a word adds
/// its value, and one with the marker adds its elements, behind those that are
/// there. A word that fails ends the command and adds nothing.
pub proof fn words_become_arguments_in_order(
    before: Interp,
    after: Interp,
    run: WordsRun,
    then: WordsRun,
    src: Seq<u8>,
    outcome: WordOutcome,
    r: Option<Code>,
)
    requires
        run.valid(),
        run.next < run.words@.len(),
        word_taken(before, after, run, then, src, outcome, r),
    ensures
        outcome matches WordOutcome::Value(v) ==> r is None && then.args.values@
            == run.args.values@ + seq![v] && then.next == run.next + 1,
        outcome matches WordOutcome::Elements { values: Ok(vs), .. } ==> r is None
            && then.args.values@ == run.args.values@ + vs@ && then.next == run.next + 1,
        outcome matches WordOutcome::Elements { values: Err(m), .. } ==> r == Some(Code::Error)
            && then == run && after.state.result@ == m@,
        outcome matches WordOutcome::Failed(c) ==> r == Some(c) && then == run && after == before,
{
    if let WordOutcome::Value(v) = outcome {
        assert(run.args.values@.push(v) =~= run.args.values@ + seq![v]);
    }
}

/// Each argument has the line of its word, and the lines of the arguments before
/// it stay. Only the literal words of a file are noted as literals.
pub proof fn an_argument_is_on_its_words_line(
    before: ArgBuilder,
    after: ArgBuilder,
    value: u64,
    line: u32,
    literal: bool,
)
    requires
        before.valid(),
        word_added(before, after, value, line as int, literal),
    ensures
        after.values@.last() == value,
        after.lines@.last() == line,
        after.lines@.drop_last() == before.lines@,
        before.in_file && literal ==> after.literals@ == before.literals@.push(
            before.values@.len() as usize,
        ),
        !(before.in_file && literal) ==> after.literals@ == before.literals@,
{
    assert(after.lines@.drop_last() =~= before.lines@);
}

/// The words of a command are gone through one by one: one with the marker is
/// expanded, any other substituted. Behind the last the command is dispatched,
/// if it has an argument at all.
pub proof fn words_are_gone_through_one_by_one(run: WordsRun)
    ensures
        run.next < run.words@.len() && run.words@[run.next as int].expand ==> run.due()
            == WordsStep::Expand(run.next),
        run.next < run.words@.len() && !run.words@[run.next as int].expand ==> run.due()
            == WordsStep::Substitute(run.next),
        run.next >= run.words@.len() && run.args.values@.len() > 0 ==> run.due()
            == WordsStep::Dispatch,
        run.next >= run.words@.len() && run.args.values@.len() == 0 ==> run.due()
            == WordsStep::Done,
{
}

/// Each element of an expanded word has the line that it stands on in the word,
/// and the lines of the arguments before it stay.
pub proof fn an_element_is_on_its_own_line(
    before: ArgBuilder,
    after: ArgBuilder,
    values: Seq<u64>,
    line: int,
    offsets: Option<Vec<ElementOffset>>,
    k: int,
)
    requires
        before.valid(),
        elements_added(before, after, values, line, offsets),
        0 <= k < values.len(),
    ensures
        after.values@[before.values@.len() + k] == values[k],
        offsets is Some && k < offsets->0@.len() ==> after.lines@[before.lines@.len() + k] == line
            + offsets->0@[k].newlines,
        offsets is None ==> after.lines@[before.lines@.len() + k] == line,
        after.lines@.take(before.lines@.len() as int) == before.lines@,
        after.values@.take(before.values@.len() as int) == before.values@,
{
    assert(element_offset(offsets, k).newlines >= 0);
    assert(after.values@.take(before.values@.len() as int) =~= before.values@);
}

} // verus!
