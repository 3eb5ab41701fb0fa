//! Substitution: how the parts of a word or of a `subst` string become bytes.
//!
//! Reading a variable, firing its traces and running a `[...]` script are the
//! embedder's work. A substitution is given the answers so far; it says what to
//! do next, or what it came to.

use vstd::prelude::*;

use crate::bytes::{append, copied, copied_opt, opt_view};
use crate::code::Code;
use crate::errors::raised;
use crate::eval::{only_frames_changed, top_set};
use crate::frames::{frame_views, CmdFrame, FrameView, Location, LocationView};
use crate::state::Interp;
use crate::traces::{read_miss, read_miss_msg};

verus! {

/// One part of a word.
pub enum WordPart {
    /// Text with its backslashes resolved.
    Text(Vec<u8>),
    /// `$name`, or `$name(index)` with an index that is itself substituted.
    Variable { name: Vec<u8>, index: Option<Vec<WordPart>> },
    /// `[script]`.
    Command(Vec<u8>),
    /// What follows cannot be parsed. Raised when it is reached, so that the
    /// parts before it have run.
    ParseError(Vec<u8>),
}

/// A word before substitution.
pub enum WordBody {
    Literal(Vec<u8>),
    Parts(Vec<WordPart>),
}

/// What reading a variable gave.
pub enum VarRead {
    Value(Vec<u8>),
    /// Nothing to read, and what stands under the name instead.
    Missing { is_array: bool, exists_there: bool },
}

/// The answer to an [`Ask`].
pub enum Answer {
    /// The read traces ran; the code with which one of them failed.
    Traced(Option<Code>),
    Read(VarRead),
    /// The script ended with `code` and left `result`.
    Ran { code: Code, result: Vec<u8> },
}

/// What a substitution needs to go on.
#[derive(Debug)]
pub enum Ask {
    /// Fire the read traces of the variable; answered by [`Answer::Traced`].
    FireRead { name: Vec<u8>, index: Option<Vec<u8>> },
    /// Read the variable; answered by [`Answer::Read`].
    ReadVar { name: Vec<u8>, index: Option<Vec<u8>> },
    /// Run the script; answered by [`Answer::Ran`]. A located script reports
    /// the lines of the text that it stands in.
    Eval { script: Vec<u8>, located: bool },
}

/// What an [`Ask`] holds.
pub enum AskView {
    FireRead { name: Seq<u8>, index: Option<Seq<u8>> },
    ReadVar { name: Seq<u8>, index: Option<Seq<u8>> },
    Eval { script: Seq<u8>, located: bool },
}

impl View for Ask {
    type V = AskView;

    open spec fn view(&self) -> AskView {
        match *self {
            Ask::FireRead { name, index } => AskView::FireRead {
                name: name@,
                index: opt_view(index),
            },
            Ask::ReadVar { name, index } => AskView::ReadVar {
                name: name@,
                index: opt_view(index),
            },
            Ask::Eval { script, located } => AskView::Eval { script: script@, located },
        }
    }
}

/// How far a substitution gets on given answers.
pub enum Run {
    Asking(AskView),
    /// It raises an error with this message.
    Raised(Seq<u8>),
    /// It ends with this code; the answer that failed has left the result.
    Failed(Code),
    /// It came to `bytes`. `code` is how the last script ended, `result` what
    /// that script left, and `rest` the answers that were not used.
    Finished { bytes: Seq<u8>, code: Code, result: Seq<u8>, rest: Seq<Answer> },
}

/// A run that came to `bytes` without a script that ended in another way.
pub open spec fn finished(bytes: Seq<u8>, rest: Seq<Answer>) -> Run {
    Run::Finished { bytes, code: Code::Okay, result: Seq::empty(), rest }
}

/// Running a script.
pub open spec fn eval_run(script: Seq<u8>, located: bool, answers: Seq<Answer>) -> Run {
    if answers.len() == 0 {
        Run::Asking(AskView::Eval { script, located })
    } else {
        match answers[0] {
            Answer::Ran { code, result } => Run::Finished {
                bytes: result@,
                code,
                result: result@,
                rest: answers.skip(1),
            },
            _ => Run::Asking(AskView::Eval { script, located }),
        }
    }
}

/// Reading a variable whose traces have fired.
pub open spec fn read_run(name: Seq<u8>, index: Option<Seq<u8>>, answers: Seq<Answer>) -> Run {
    if answers.len() == 0 {
        Run::Asking(AskView::ReadVar { name, index })
    } else {
        match answers[0] {
            Answer::Read(VarRead::Value(v)) => finished(v@, answers.skip(1)),
            Answer::Read(VarRead::Missing { is_array, exists_there }) => Run::Raised(
                read_miss(name, index, is_array, exists_there),
            ),
            _ => Run::Asking(AskView::ReadVar { name, index }),
        }
    }
}

/// Reading a variable, read traces first.
pub open spec fn traced_run(name: Seq<u8>, index: Option<Seq<u8>>, answers: Seq<Answer>) -> Run {
    if answers.len() == 0 {
        Run::Asking(AskView::FireRead { name, index })
    } else {
        match answers[0] {
            Answer::Traced(None) => read_run(name, index, answers.skip(1)),
            Answer::Traced(Some(c)) => Run::Failed(c),
            _ => Run::Asking(AskView::FireRead { name, index }),
        }
    }
}

/// The index that a run of index parts gave.
pub open spec fn index_given(index: Option<Vec<WordPart>>, bytes: Seq<u8>) -> Option<Seq<u8>> {
    if index is Some {
        Some(bytes)
    } else {
        None
    }
}

/// An array index, after `acc`. A script in it that ends with another code than
/// success ends the index there with that code; `return` still contributes its
/// value. An index reads variables without firing their traces.
pub open spec fn index_run(parts: Seq<WordPart>, answers: Seq<Answer>, acc: Seq<u8>) -> Run
    decreases parts,
{
    if parts.len() == 0 {
        finished(acc, answers)
    } else {
        let tail = parts.subrange(1, parts.len() as int);
        match parts[0] {
            WordPart::Text(b) => index_run(tail, answers, acc + b@),
            WordPart::ParseError(m) => Run::Raised(m@),
            WordPart::Command(script) => match eval_run(script@, false, answers) {
                Run::Finished { bytes, code, result, rest } => match code {
                    Code::Okay => index_run(tail, rest, acc + bytes),
                    Code::Error => Run::Failed(code),
                    Code::Return => Run::Finished { bytes: acc + bytes, code, result, rest },
                    _ => Run::Finished { bytes: acc, code, result, rest },
                },
                r => r,
            },
            WordPart::Variable { name, index } => {
                let head = match index {
                    Some(p) => index_run(p@, answers, Seq::empty()),
                    None => finished(Seq::empty(), answers),
                };
                match head {
                    Run::Finished { bytes, code, result, rest } => if code == Code::Okay {
                        match read_run(name@, index_given(index, bytes), rest) {
                            Run::Finished { bytes, rest, .. } => index_run(
                                tail,
                                rest,
                                acc + bytes,
                            ),
                            r => r,
                        }
                    } else {
                        Run::Finished { bytes: acc, code, result, rest }
                    },
                    r => r,
                }
            },
        }
    }
}

/// The index of a variable part, if it has one.
pub open spec fn opt_index_run(index: Option<Vec<WordPart>>, answers: Seq<Answer>) -> Run {
    match index {
        Some(p) => index_run(p@, answers, Seq::empty()),
        None => finished(Seq::empty(), answers),
    }
}

/// The parts of a word, after `acc`. Every completion but success, of a script
/// or inside an index, ends the word with that completion.
pub open spec fn word_run(parts: Seq<WordPart>, answers: Seq<Answer>, acc: Seq<u8>) -> Run
    decreases parts.len(),
{
    if parts.len() == 0 {
        finished(acc, answers)
    } else {
        let tail = parts.subrange(1, parts.len() as int);
        match parts[0] {
            WordPart::Text(b) => word_run(tail, answers, acc + b@),
            WordPart::ParseError(m) => Run::Raised(m@),
            WordPart::Command(script) => match eval_run(script@, true, answers) {
                Run::Finished { bytes, code, rest, .. } => if code == Code::Okay {
                    word_run(tail, rest, acc + bytes)
                } else {
                    Run::Failed(code)
                },
                r => r,
            },
            WordPart::Variable { name, index } => match opt_index_run(index, answers) {
                Run::Finished { bytes, code, rest, .. } => if code == Code::Okay {
                    match traced_run(name@, index_given(index, bytes), rest) {
                        Run::Finished { bytes, rest, .. } => word_run(tail, rest, acc + bytes),
                        r => r,
                    }
                } else {
                    Run::Failed(code)
                },
                r => r,
            },
        }
    }
}

/// The parts of a `subst` string, after `acc`. `break` ends the string with what
/// there is, `continue` leaves the part out, and any other completion but an
/// error puts the script's result in the part's place.
pub open spec fn subst_run(parts: Seq<WordPart>, answers: Seq<Answer>, acc: Seq<u8>) -> Run
    decreases parts.len(),
{
    if parts.len() == 0 {
        finished(acc, answers)
    } else {
        let tail = parts.subrange(1, parts.len() as int);
        match parts[0] {
            WordPart::Text(b) => subst_run(tail, answers, acc + b@),
            WordPart::ParseError(m) => Run::Raised(m@),
            WordPart::Command(script) => match eval_run(script@, true, answers) {
                Run::Finished { bytes, code, rest, .. } => match code {
                    Code::Okay | Code::Return | Code::Other(_) => subst_run(
                        tail,
                        rest,
                        acc + bytes,
                    ),
                    Code::Break => finished(acc, rest),
                    Code::Continue => subst_run(tail, rest, acc),
                    Code::Error => Run::Failed(code),
                },
                r => r,
            },
            WordPart::Variable { name, index } => match opt_index_run(index, answers) {
                Run::Finished { bytes, code, result, rest } => match code {
                    Code::Okay => match traced_run(name@, index_given(index, bytes), rest) {
                        Run::Finished { bytes, rest, .. } => subst_run(tail, rest, acc + bytes),
                        r => r,
                    },
                    Code::Break => finished(acc, rest),
                    Code::Continue => subst_run(tail, rest, acc),
                    _ => subst_run(tail, rest, acc + result),
                },
                r => r,
            },
        }
    }
}

/// Every part of `parts`, seen from the front.
proof fn first_of_subrange(parts: Seq<WordPart>, i: int)
    requires
        0 <= i < parts.len(),
    ensures
        parts.subrange(i, parts.len() as int)[0] == parts[i],
        parts.subrange(i, parts.len() as int).subrange(
            1,
            parts.len() - i,
        ) == parts.subrange(i + 1, parts.len() as int),
{
    assert(parts.subrange(i, parts.len() as int).subrange(1, parts.len() - i) =~= parts.subrange(
        i + 1,
        parts.len() as int,
    ));
}

/// How far a substitution got.
enum Progress {
    Asking(Ask),
    Raised(Vec<u8>),
    Failed(Code),
    /// `used` counts the answers up to the first that was not used.
    Finished { bytes: Vec<u8>, code: Code, result: Vec<u8>, used: usize },
}

impl Progress {
    /// The run that this is on `answers`.
    spec fn run(self, answers: Seq<Answer>) -> Run {
        match self {
            Progress::Asking(a) => Run::Asking(a@),
            Progress::Raised(m) => Run::Raised(m@),
            Progress::Failed(c) => Run::Failed(c),
            Progress::Finished { bytes, code, result, used } => Run::Finished {
                bytes: bytes@,
                code,
                result: result@,
                rest: answers.skip(used as int),
            },
        }
    }

    /// Whether the count of used answers lies in `from..=len`.
    spec fn in_bounds(self, from: int, len: int) -> bool {
        self matches Progress::Finished { used, .. } ==> from <= used <= len
    }
}

fn run_eval(script: &[u8], located: bool, answers: &[Answer], at: usize) -> (p: Progress)
    requires
        at <= answers@.len(),
    ensures
        p.run(answers@) == eval_run(script@, located, answers@.skip(at as int)),
        p.in_bounds(at as int, answers@.len() as int),
{
    if at < answers.len() {
        if let Answer::Ran { code, result } = &answers[at] {
            assert(answers@.skip(at as int).skip(1) =~= answers@.skip(at + 1));
            return Progress::Finished {
                bytes: copied(result),
                code: *code,
                result: copied(result),
                used: at + 1,
            };
        }
    }
    Progress::Asking(Ask::Eval { script: copied(script), located })
}

fn run_read(name: &[u8], index: &Option<Vec<u8>>, answers: &[Answer], at: usize) -> (p: Progress)
    requires
        at <= answers@.len(),
    ensures
        p.run(answers@) == read_run(name@, opt_view(*index), answers@.skip(at as int)),
        p.in_bounds(at as int, answers@.len() as int),
{
    if at < answers.len() {
        match &answers[at] {
            Answer::Read(VarRead::Value(v)) => {
                assert(answers@.skip(at as int).skip(1) =~= answers@.skip(at + 1));
                let none: Vec<u8> = Vec::new();
                assert(none@ =~= Seq::empty());
                return Progress::Finished {
                    bytes: copied(v),
                    code: Code::Okay,
                    result: none,
                    used: at + 1,
                };
            },
            Answer::Read(VarRead::Missing { is_array, exists_there }) => {
                return Progress::Raised(
                    read_miss_msg(name, index, *is_array, *exists_there),
                );
            },
            _ => {},
        }
    }
    Progress::Asking(Ask::ReadVar { name: copied(name), index: copied_opt(index) })
}

fn run_traced(name: &[u8], index: &Option<Vec<u8>>, answers: &[Answer], at: usize) -> (p: Progress)
    requires
        at <= answers@.len(),
    ensures
        p.run(answers@) == traced_run(name@, opt_view(*index), answers@.skip(at as int)),
        p.in_bounds(at as int, answers@.len() as int),
{
    if at < answers.len() {
        match &answers[at] {
            Answer::Traced(None) => {
                assert(answers@.skip(at as int).skip(1) =~= answers@.skip(at + 1));
                return run_read(name, index, answers, at + 1);
            },
            Answer::Traced(Some(c)) => {
                return Progress::Failed(*c);
            },
            _ => {},
        }
    }
    Progress::Asking(Ask::FireRead { name: copied(name), index: copied_opt(index) })
}

fn run_opt_index(index: &Option<Vec<WordPart>>, answers: &[Answer], at: usize) -> (p: Progress)
    requires
        at <= answers@.len(),
    ensures
        p.run(answers@) == opt_index_run(*index, answers@.skip(at as int)),
        p.in_bounds(at as int, answers@.len() as int),
    decreases index, 1nat,
{
    match index {
        Some(parts) => run_index(parts, answers, at),
        None => {
            let none: Vec<u8> = Vec::new();
            let also_none: Vec<u8> = Vec::new();
            assert(none@ =~= Seq::empty());
            assert(also_none@ =~= Seq::empty());
            Progress::Finished { bytes: none, code: Code::Okay, result: also_none, used: at }
        },
    }
}

fn run_index(parts: &Vec<WordPart>, answers: &[Answer], at: usize) -> (p: Progress)
    requires
        at <= answers@.len(),
    ensures
        p.run(answers@) == index_run(parts@, answers@.skip(at as int), Seq::empty()),
        p.in_bounds(at as int, answers@.len() as int),
    decreases parts, 0nat,
{
    let mut buf: Vec<u8> = Vec::new();
    let mut used = at;
    let mut i: usize = 0;
    assert(parts@.subrange(0, parts@.len() as int) =~= parts@);
    assert(buf@ =~= Seq::empty());
    while i < parts.len()
        invariant
            i <= parts@.len(),
            at <= used <= answers@.len(),
            index_run(parts@, answers@.skip(at as int), Seq::empty()) == index_run(
                parts@.subrange(i as int, parts@.len() as int),
                answers@.skip(used as int),
                buf@,
            ),
        decreases parts@.len() - i,
    {
        proof {
            first_of_subrange(parts@, i as int);
        }
        match &parts[i] {
            WordPart::Text(b) => {
                append(&mut buf, b);
            },
            WordPart::ParseError(m) => {
                return Progress::Raised(copied(m));
            },
            WordPart::Command(script) => {
                match run_eval(script, false, answers, used) {
                    Progress::Finished { bytes, code, result, used: next } => {
                        match code {
                            Code::Okay => {
                                append(&mut buf, &bytes);
                                used = next;
                            },
                            Code::Error => {
                                return Progress::Failed(code);
                            },
                            Code::Return => {
                                append(&mut buf, &bytes);
                                return Progress::Finished { bytes: buf, code, result, used: next };
                            },
                            _ => {
                                return Progress::Finished { bytes: buf, code, result, used: next };
                            },
                        }
                    },
                    p => {
                        return p;
                    },
                }
            },
            WordPart::Variable { name, index } => {
                match run_opt_index(index, answers, used) {
                    Progress::Finished { bytes, code, result, used: next } => {
                        if code != Code::Okay {
                            return Progress::Finished { bytes: buf, code, result, used: next };
                        }
                        let key = if index.is_some() {
                            Some(bytes)
                        } else {
                            None
                        };
                        match run_read(name, &key, answers, next) {
                            Progress::Finished { bytes, used: after, .. } => {
                                append(&mut buf, &bytes);
                                used = after;
                            },
                            p => {
                                return p;
                            },
                        }
                    },
                    p => {
                        return p;
                    },
                }
            },
        }
        i = i + 1;
    }
    let none: Vec<u8> = Vec::new();
    assert(none@ =~= Seq::empty());
    Progress::Finished { bytes: buf, code: Code::Okay, result: none, used }
}

fn run_word(parts: &[WordPart], answers: &[Answer]) -> (p: Progress)
    ensures
        p.run(answers@) == word_run(parts@, answers@, Seq::empty()),
{
    let mut buf: Vec<u8> = Vec::new();
    let mut used: usize = 0;
    let mut i: usize = 0;
    assert(parts@.subrange(0, parts@.len() as int) =~= parts@);
    assert(answers@.skip(0) =~= answers@);
    assert(buf@ =~= Seq::empty());
    while i < parts.len()
        invariant
            i <= parts@.len(),
            used <= answers@.len(),
            word_run(parts@, answers@, Seq::empty()) == word_run(
                parts@.subrange(i as int, parts@.len() as int),
                answers@.skip(used as int),
                buf@,
            ),
        decreases parts@.len() - i,
    {
        proof {
            first_of_subrange(parts@, i as int);
        }
        match &parts[i] {
            WordPart::Text(b) => {
                append(&mut buf, b);
            },
            WordPart::ParseError(m) => {
                return Progress::Raised(copied(m));
            },
            WordPart::Command(script) => {
                match run_eval(script, true, answers, used) {
                    Progress::Finished { bytes, code, used: next, .. } => {
                        if code != Code::Okay {
                            return Progress::Failed(code);
                        }
                        append(&mut buf, &bytes);
                        used = next;
                    },
                    p => {
                        return p;
                    },
                }
            },
            WordPart::Variable { name, index } => {
                match run_opt_index(index, answers, used) {
                    Progress::Finished { bytes, code, used: next, .. } => {
                        if code != Code::Okay {
                            return Progress::Failed(code);
                        }
                        let key = if index.is_some() {
                            Some(bytes)
                        } else {
                            None
                        };
                        match run_traced(name, &key, answers, next) {
                            Progress::Finished { bytes, used: after, .. } => {
                                append(&mut buf, &bytes);
                                used = after;
                            },
                            p => {
                                return p;
                            },
                        }
                    },
                    p => {
                        return p;
                    },
                }
            },
        }
        i = i + 1;
    }
    let none: Vec<u8> = Vec::new();
    assert(none@ =~= Seq::empty());
    Progress::Finished { bytes: buf, code: Code::Okay, result: none, used }
}

fn run_subst(parts: &[WordPart], answers: &[Answer]) -> (p: Progress)
    ensures
        p.run(answers@) == subst_run(parts@, answers@, Seq::empty()),
{
    let mut buf: Vec<u8> = Vec::new();
    let mut used: usize = 0;
    let mut i: usize = 0;
    let none: Vec<u8> = Vec::new();
    assert(none@ =~= Seq::empty());
    assert(parts@.subrange(0, parts@.len() as int) =~= parts@);
    assert(answers@.skip(0) =~= answers@);
    assert(buf@ =~= Seq::empty());
    while i < parts.len()
        invariant
            i <= parts@.len(),
            used <= answers@.len(),
            none@ == Seq::<u8>::empty(),
            subst_run(parts@, answers@, Seq::empty()) == subst_run(
                parts@.subrange(i as int, parts@.len() as int),
                answers@.skip(used as int),
                buf@,
            ),
        decreases parts@.len() - i,
    {
        proof {
            first_of_subrange(parts@, i as int);
        }
        match &parts[i] {
            WordPart::Text(b) => {
                append(&mut buf, b);
            },
            WordPart::ParseError(m) => {
                return Progress::Raised(copied(m));
            },
            WordPart::Command(script) => {
                match run_eval(script, true, answers, used) {
                    Progress::Finished { bytes, code, used: next, .. } => {
                        used = next;
                        match code {
                            Code::Okay | Code::Return | Code::Other(_) => {
                                append(&mut buf, &bytes);
                            },
                            Code::Break => {
                                return Progress::Finished {
                                    bytes: buf,
                                    code: Code::Okay,
                                    result: none,
                                    used,
                                };
                            },
                            Code::Continue => {},
                            Code::Error => {
                                return Progress::Failed(code);
                            },
                        }
                    },
                    p => {
                        return p;
                    },
                }
            },
            WordPart::Variable { name, index } => {
                match run_opt_index(index, answers, used) {
                    Progress::Finished { bytes, code, result, used: next } => {
                        match code {
                            Code::Okay => {
                                let key = if index.is_some() {
                                    Some(bytes)
                                } else {
                                    None
                                };
                                match run_traced(name, &key, answers, next) {
                                    Progress::Finished { bytes, used: after, .. } => {
                                        append(&mut buf, &bytes);
                                        used = after;
                                    },
                                    p => {
                                        return p;
                                    },
                                }
                            },
                            Code::Break => {
                                return Progress::Finished {
                                    bytes: buf,
                                    code: Code::Okay,
                                    result: none,
                                    used: next,
                                };
                            },
                            Code::Continue => {
                                used = next;
                            },
                            _ => {
                                append(&mut buf, &result);
                                used = next;
                            },
                        }
                    },
                    p => {
                        return p;
                    },
                }
            },
        }
        i = i + 1;
    }
    Progress::Finished { bytes: buf, code: Code::Okay, result: none, used }
}

/// What a substitution came to on the answers so far.
#[derive(Debug)]
pub enum Substitution {
    Ask(Ask),
    /// The bytes. A word that is exactly one variable or one script is that
    /// value itself, not a new one with the same bytes: `same_value`.
    Done { bytes: Vec<u8>, same_value: bool },
    Failed(Code),
}

/// Whether the word is exactly one variable or one script.
pub open spec fn is_single_value(parts: Seq<WordPart>) -> bool {
    parts.len() == 1 && (parts[0] is Variable || parts[0] is Command)
}

/// `s` and the change from `before` to `after` are what the run `r` asks for.
pub open spec fn carried_out(
    before: Interp,
    after: Interp,
    r: Run,
    single: bool,
    s: Substitution,
) -> bool {
    match r {
        Run::Asking(a) => {
            &&& s matches Substitution::Ask(asked)
            &&& asked@ == a
            &&& after == before
        },
        Run::Raised(m) => {
            &&& s == Substitution::Failed(Code::Error)
            &&& raised(before, after, m)
        },
        Run::Failed(code) => {
            &&& s == Substitution::Failed(code)
            &&& after == before
        },
        Run::Finished { bytes, .. } => {
            &&& s matches Substitution::Done { bytes: b, same_value }
            &&& b@ == bytes
            &&& same_value == single
            &&& after == before
        },
    }
}

impl Interp {
    fn carry_out(&mut self, p: Progress, single: bool, Ghost(answers): Ghost<Seq<Answer>>) -> (s:
        Substitution)
        ensures
            carried_out(*old(self), *final(self), p.run(answers), single, s),
    {
        match p {
            Progress::Asking(a) => Substitution::Ask(a),
            Progress::Raised(m) => Substitution::Failed(self.error(&m)),
            Progress::Failed(code) => Substitution::Failed(code),
            Progress::Finished { bytes, .. } => Substitution::Done { bytes, same_value: single },
        }
    }

    /// Substitutes one word, as far as `answers` go.
    pub fn substitute_word(&mut self, body: &WordBody, answers: &[Answer]) -> (s: Substitution)
        ensures
            match *body {
                WordBody::Literal(b) => carried_out(
                    *old(self),
                    *final(self),
                    finished(b@, answers@),
                    false,
                    s,
                ),
                WordBody::Parts(parts) => carried_out(
                    *old(self),
                    *final(self),
                    word_run(parts@, answers@, Seq::empty()),
                    is_single_value(parts@),
                    s,
                ),
            },
    {
        match body {
            WordBody::Literal(b) => Substitution::Done { bytes: copied(b), same_value: false },
            WordBody::Parts(parts) => {
                let single = parts.len() == 1 && match &parts[0] {
                    WordPart::Variable { .. } => true,
                    WordPart::Command(_) => true,
                    _ => false,
                };
                let p = run_word(parts, answers);
                self.carry_out(p, single, Ghost(answers@))
            },
        }
    }

    /// Substitutes the string of a `subst` command, as far as `answers` go.
    pub fn do_subst(&mut self, body: &WordBody, answers: &[Answer]) -> (s: Substitution)
        ensures
            match *body {
                WordBody::Literal(b) => carried_out(
                    *old(self),
                    *final(self),
                    finished(b@, answers@),
                    false,
                    s,
                ),
                WordBody::Parts(parts) => carried_out(
                    *old(self),
                    *final(self),
                    subst_run(parts@, answers@, Seq::empty()),
                    false,
                    s,
                ),
            },
    {
        match body {
            WordBody::Literal(b) => Substitution::Done { bytes: copied(b), same_value: false },
            WordBody::Parts(parts) => {
                let p = run_subst(parts, answers);
                self.carry_out(p, false, Ghost(answers@))
            },
        }
    }
}

/// Where the frame that a located substitution borrows pointed before.
pub struct SavedPlace {
    pub line_base: u32,
    pub file: Option<Vec<u8>>,
}

/// A frame that tells the place `l`; `s` is the place that it told before.
pub open spec fn place_taken(before: Interp, after: Interp, l: LocationView, s: SavedPlace) -> bool {
    let top = before.state.cmd_frames@.last()@;
    &&& s.line_base == top.line_base
    &&& opt_view(s.file) == top.file
    &&& only_frames_changed(before, after)
    &&& frame_views(after.state.cmd_frames@) == top_set(
        frame_views(before.state.cmd_frames@),
        FrameView {
            line_base: if l.line == 0 {
                0
            } else {
                (l.line - 1) as u32
            },
            file: if l.file is Some {
                l.file
            } else {
                top.file
            },
            ..top
        },
    )
}

/// A frame that tells the place `s` again.
pub open spec fn place_restored(before: Interp, after: Interp, s: SavedPlace) -> bool {
    &&& only_frames_changed(before, after)
    &&& frame_views(after.state.cmd_frames@) == top_set(
        frame_views(before.state.cmd_frames@),
        FrameView {
            line_base: s.line_base,
            file: opt_view(s.file),
            ..before.state.cmd_frames@.last()@
        },
    )
}

/// A located substitution leaves the frame as it was, if what it ran kept the
/// frames.
pub proof fn a_located_subst_leaves_the_frame(
    before: Interp,
    inside: Interp,
    ran: Interp,
    after: Interp,
    l: LocationView,
    s: SavedPlace,
)
    requires
        before.state.cmd_frames@.len() > 0,
        place_taken(before, inside, l, s),
        frame_views(ran.state.cmd_frames@) == frame_views(inside.state.cmd_frames@),
        place_restored(ran, after, s),
    ensures
        frame_views(after.state.cmd_frames@) == frame_views(before.state.cmd_frames@),
{
    let was = frame_views(before.state.cmd_frames@);
    let top = was.len() - 1;
    assert(was[top] == before.state.cmd_frames@.last()@);
    let held = frame_views(ran.state.cmd_frames@);
    assert(held[top] == ran.state.cmd_frames@.last()@);
    assert(frame_views(after.state.cmd_frames@) =~= was);
}

impl Interp {
    /// Points the innermost frame at the place where the string of a `subst`
    /// was written, so that its scripts report the lines they stand on. Gives
    /// back what the frame pointed at: `None` where no place is known or no
    /// frame is there.
    pub fn begin_located_subst(&mut self, loc: &Option<Location>) -> (r: Option<SavedPlace>)
        ensures
            r is Some == (loc is Some && old(self).state.cmd_frames@.len() > 0),
            r is None ==> *final(self) == *old(self),
            r matches Some(s) ==> place_taken(*old(self), *final(self), loc->0@, s),
    {
        let depth = self.state.cmd_frames.len();
        if depth == 0 {
            return None;
        }
        match loc {
            None => None,
            Some(l) => {
                let top: &mut CmdFrame = &mut self.state.cmd_frames[depth - 1];
                let saved = SavedPlace { line_base: top.line_base, file: copied_opt(&top.file) };
                top.line_base = if l.line == 0 {
                    0
                } else {
                    l.line - 1
                };
                if l.file.is_some() {
                    top.file = copied_opt(&l.file);
                }
                proof {
                    let before = old(self).state.cmd_frames@.last()@;
                    assert(frame_views(self.state.cmd_frames@) =~= top_set(
                        frame_views(old(self).state.cmd_frames@),
                        FrameView {
                            line_base: self.state.cmd_frames@.last()@.line_base,
                            file: self.state.cmd_frames@.last()@.file,
                            ..before
                        },
                    ));
                }
                Some(saved)
            },
        }
    }

    /// Points the innermost frame back at what
    /// [`Interp::begin_located_subst`] gave.
    pub fn end_located_subst(&mut self, saved: Option<SavedPlace>)
        ensures
            saved is None || old(self).state.cmd_frames@.len() == 0 ==> *final(self) == *old(self),
            saved is Some && old(self).state.cmd_frames@.len() > 0 ==> place_restored(
                *old(self),
                *final(self),
                saved->0,
            ),
    {
        let depth = self.state.cmd_frames.len();
        if let Some(s) = saved {
            if depth > 0 {
                let ghost kept = s;
                let top: &mut CmdFrame = &mut self.state.cmd_frames[depth - 1];
                top.line_base = s.line_base;
                top.file = s.file;
                assert(frame_views(self.state.cmd_frames@) =~= top_set(
                    frame_views(old(self).state.cmd_frames@),
                    FrameView {
                        line_base: kept.line_base,
                        file: opt_view(kept.file),
                        ..old(self).state.cmd_frames@.last()@
                    },
                ));
            }
        }
    }
}

/// The run `r` with `more` answers left over behind it.
pub open spec fn with_more(r: Run, more: Seq<Answer>) -> Run {
    match r {
        Run::Finished { bytes, code, result, rest } => Run::Finished {
            bytes,
            code,
            result,
            rest: rest + more,
        },
        _ => r,
    }
}

proof fn skip_first_with_more(answers: Seq<Answer>, more: Seq<Answer>)
    requires
        answers.len() > 0,
    ensures
        (answers + more).skip(1) == answers.skip(1) + more,
        (answers + more)[0] == answers[0],
{
    assert((answers + more).skip(1) =~= answers.skip(1) + more);
}

proof fn reads_settle(name: Seq<u8>, index: Option<Seq<u8>>, answers: Seq<Answer>, more: Seq<Answer>)
    ensures
        read_run(name, index, answers) !is Asking ==> read_run(name, index, answers + more)
            == with_more(read_run(name, index, answers), more),
        traced_run(name, index, answers) !is Asking ==> traced_run(name, index, answers + more)
            == with_more(traced_run(name, index, answers), more),
{
    if answers.len() > 0 {
        skip_first_with_more(answers, more);
        if answers.skip(1).len() > 0 {
            skip_first_with_more(answers.skip(1), more);
        }
    }
}

proof fn evals_settle(script: Seq<u8>, located: bool, answers: Seq<Answer>, more: Seq<Answer>)
    ensures
        eval_run(script, located, answers) !is Asking ==> eval_run(script, located, answers + more)
            == with_more(eval_run(script, located, answers), more),
{
    if answers.len() > 0 {
        skip_first_with_more(answers, more);
    }
}

/// An index that needs no further answer is not changed by one.
pub proof fn settled_index_stays(
    parts: Seq<WordPart>,
    answers: Seq<Answer>,
    more: Seq<Answer>,
    acc: Seq<u8>,
)
    requires
        index_run(parts, answers, acc) !is Asking,
    ensures
        index_run(parts, answers + more, acc) == with_more(index_run(parts, answers, acc), more),
    decreases parts,
{
    if parts.len() > 0 {
        let tail = parts.subrange(1, parts.len() as int);
        match parts[0] {
            WordPart::Text(b) => settled_index_stays(tail, answers, more, acc + b@),
            WordPart::ParseError(m) => {},
            WordPart::Command(script) => {
                evals_settle(script@, false, answers, more);
                if let Run::Finished { bytes, code, rest, .. } = eval_run(script@, false, answers) {
                    if code == Code::Okay {
                        settled_index_stays(tail, rest, more, acc + bytes);
                    }
                }
            },
            WordPart::Variable { name, index } => {
                if let Some(p) = index {
                    settled_index_stays(p@, answers, more, Seq::empty());
                }
                if let Run::Finished { bytes, code, rest, .. } = opt_index_run(index, answers) {
                    reads_settle(name@, index_given(index, bytes), rest, more);
                    if let Run::Finished { bytes: value, rest: after, .. } = read_run(
                        name@,
                        index_given(index, bytes),
                        rest,
                    ) {
                        if code == Code::Okay {
                            settled_index_stays(tail, after, more, acc + value);
                        }
                    }
                }
            },
        }
    }
}

proof fn opt_index_settles(index: Option<Vec<WordPart>>, answers: Seq<Answer>, more: Seq<Answer>)
    ensures
        opt_index_run(index, answers) !is Asking ==> opt_index_run(index, answers + more)
            == with_more(opt_index_run(index, answers), more),
{
    if let Some(p) = index {
        if index_run(p@, answers, Seq::empty()) !is Asking {
            settled_index_stays(p@, answers, more, Seq::empty());
        }
    }
}

/// A word that needs no further answer is not changed by one.
pub proof fn settled_word_stays(
    parts: Seq<WordPart>,
    answers: Seq<Answer>,
    more: Seq<Answer>,
    acc: Seq<u8>,
)
    requires
        word_run(parts, answers, acc) !is Asking,
    ensures
        word_run(parts, answers + more, acc) == with_more(word_run(parts, answers, acc), more),
    decreases parts.len(),
{
    if parts.len() > 0 {
        let tail = parts.subrange(1, parts.len() as int);
        match parts[0] {
            WordPart::Text(b) => settled_word_stays(tail, answers, more, acc + b@),
            WordPart::ParseError(m) => {},
            WordPart::Command(script) => {
                evals_settle(script@, true, answers, more);
                if let Run::Finished { bytes, code, rest, .. } = eval_run(script@, true, answers) {
                    if code == Code::Okay {
                        settled_word_stays(tail, rest, more, acc + bytes);
                    }
                }
            },
            WordPart::Variable { name, index } => {
                opt_index_settles(index, answers, more);
                if let Run::Finished { bytes, code, rest, .. } = opt_index_run(index, answers) {
                    reads_settle(name@, index_given(index, bytes), rest, more);
                    if let Run::Finished { bytes: value, rest: after, .. } = traced_run(
                        name@,
                        index_given(index, bytes),
                        rest,
                    ) {
                        if code == Code::Okay {
                            settled_word_stays(tail, after, more, acc + value);
                        }
                    }
                }
            },
        }
    }
}

/// A `subst` string that needs no further answer is not changed by one.
pub proof fn settled_subst_stays(
    parts: Seq<WordPart>,
    answers: Seq<Answer>,
    more: Seq<Answer>,
    acc: Seq<u8>,
)
    requires
        subst_run(parts, answers, acc) !is Asking,
    ensures
        subst_run(parts, answers + more, acc) == with_more(subst_run(parts, answers, acc), more),
    decreases parts.len(),
{
    if parts.len() > 0 {
        let tail = parts.subrange(1, parts.len() as int);
        match parts[0] {
            WordPart::Text(b) => settled_subst_stays(tail, answers, more, acc + b@),
            WordPart::ParseError(m) => {},
            WordPart::Command(script) => {
                evals_settle(script@, true, answers, more);
                if let Run::Finished { bytes, code, rest, .. } = eval_run(script@, true, answers) {
                    match code {
                        Code::Okay | Code::Return | Code::Other(_) => settled_subst_stays(
                            tail,
                            rest,
                            more,
                            acc + bytes,
                        ),
                        Code::Continue => settled_subst_stays(tail, rest, more, acc),
                        _ => {},
                    }
                }
            },
            WordPart::Variable { name, index } => {
                opt_index_settles(index, answers, more);
                if let Run::Finished { bytes, code, result, rest } = opt_index_run(index, answers) {
                    match code {
                        Code::Okay => {
                            reads_settle(name@, index_given(index, bytes), rest, more);
                            if let Run::Finished { bytes: value, rest: after, .. } = traced_run(
                                name@,
                                index_given(index, bytes),
                                rest,
                            ) {
                                settled_subst_stays(tail, after, more, acc + value);
                            }
                        },
                        Code::Break => {},
                        Code::Continue => settled_subst_stays(tail, rest, more, acc),
                        _ => settled_subst_stays(tail, rest, more, acc + result),
                    }
                }
            },
        }
    }
}

/// A string without variables or scripts is its text, whatever the answers,
/// both as a word and in `subst`.
pub proof fn plain_text_is_itself(parts: Seq<WordPart>, answers: Seq<Answer>, acc: Seq<u8>)
    requires
        forall|i: int| 0 <= i < parts.len() ==> #[trigger] parts[i] is Text,
    ensures
        word_run(parts, answers, acc) == finished(acc + joined_text(parts), answers),
        subst_run(parts, answers, acc) == finished(acc + joined_text(parts), answers),
    decreases parts.len(),
{
    if parts.len() > 0 {
        let tail = parts.subrange(1, parts.len() as int);
        plain_text_is_itself(tail, answers, acc + parts[0]->Text_0@);
        assert(acc + parts[0]->Text_0@ + joined_text(tail) =~= acc + joined_text(parts));
    } else {
        assert(acc + joined_text(parts) =~= acc);
    }
}

/// The text parts of `parts`, one behind the other.
pub open spec fn joined_text(parts: Seq<WordPart>) -> Seq<u8>
    decreases parts.len(),
{
    if parts.len() == 0 {
        Seq::empty()
    } else {
        let tail = joined_text(parts.subrange(1, parts.len() as int));
        match parts[0] {
            WordPart::Text(b) => b@ + tail,
            _ => tail,
        }
    }
}

/// A located substitution counts its lines from the place it is given, in that
/// place's file where it has one and else in the frame's own.
pub proof fn a_located_subst_has_the_lines_of_its_place(
    before: Interp,
    after: Interp,
    l: LocationView,
    s: SavedPlace,
)
    requires
        before.state.cmd_frames@.len() > 0,
        place_taken(before, after, l, s),
    ensures
        ({
            let top = before.state.cmd_frames@.last()@;
            let now = frame_views(after.state.cmd_frames@).last();
            &&& s.line_base == top.line_base && opt_view(s.file) == top.file
            &&& l.line >= 1 ==> now.line_base + 1 == l.line
            &&& l.line == 0 ==> now.line_base == 0
            &&& l.file is Some ==> now.file == l.file
            &&& l.file is None ==> now.file == top.file
            &&& now.level == top.level && now.cmd == top.cmd && now.line == top.line
        }),
{
}

} // verus!
