//! What words, array indexes and `subst` strings come to, part by part.

use vstd::prelude::*;

use crate::code::Code;
use crate::state::Interp;
use crate::subst::{
    carried_out, eval_run, finished, index_given, index_run, is_single_value, opt_index_run,
    read_run, subst_run, traced_run, word_run, Answer, AskView, Run, Substitution, VarRead,
    WordPart,
};
use crate::traces::read_miss;

verus! {

/// What a run came to with `front` before it. A run that did not finish is as
/// it was.
pub open spec fn behind(front: Seq<u8>, r: Run) -> Run {
    match r {
        Run::Finished { bytes, code, result, rest } => Run::Finished {
            bytes: front + bytes,
            code,
            result,
            rest,
        },
        r => r,
    }
}

/// `$name` without an index.
pub open spec fn plain_variable(p: WordPart, name: Seq<u8>) -> bool {
    p matches WordPart::Variable { name: n, index: None } && n@ == name
}

/// `$name(index)` with the parts `index`.
pub open spec fn element(p: WordPart, name: Seq<u8>, index: Seq<WordPart>) -> bool {
    p matches WordPart::Variable { name: n, index: Some(i) } && n@ == name && i@ == index
}

/// `[script]`.
pub open spec fn command(p: WordPart, script: Seq<u8>) -> bool {
    p matches WordPart::Command(s) && s@ == script
}

/// The parts that follow the first of `a + b` are those that follow it in `a`,
/// and `b`.
proof fn front_of_joined(a: Seq<WordPart>, b: Seq<WordPart>)
    ensures
        a.len() == 0 ==> a + b == b,
        a.len() > 0 ==> (a + b)[0] == a[0] && (a + b).subrange(1, (a + b).len() as int)
            == a.subrange(1, a.len() as int) + b,
{
    if a.len() == 0 {
        assert(a + b =~= b);
    } else {
        assert((a + b).subrange(1, (a + b).len() as int) =~= a.subrange(1, a.len() as int) + b);
    }
}

/// `front` before `middle` before what a run came to.
proof fn behind_both(front: Seq<u8>, middle: Seq<u8>, r: Run)
    ensures
        behind(front, behind(middle, r)) == behind(front + middle, r),
        behind(Seq::empty(), r) == r,
{
    if let Run::Finished { bytes, .. } = r {
        assert(front + (middle + bytes) =~= front + middle + bytes);
        assert(Seq::<u8>::empty() + bytes =~= bytes);
    }
}

/// What a word has come to stays in front of what its further parts come to.
pub proof fn a_word_keeps_its_front(parts: Seq<WordPart>, answers: Seq<Answer>, acc: Seq<u8>)
    ensures
        word_run(parts, answers, acc) == behind(acc, word_run(parts, answers, Seq::empty())),
        word_run(parts, answers, acc) matches Run::Finished { bytes, .. } ==> acc.is_prefix_of(
            bytes,
        ),
    decreases parts.len(),
{
    let none = Seq::<u8>::empty();
    if parts.len() == 0 {
        assert(acc + none =~= acc);
    } else {
        let tail = parts.subrange(1, parts.len() as int);
        match parts[0] {
            WordPart::Text(b) => {
                a_word_keeps_its_front(tail, answers, acc + b@);
                a_word_keeps_its_front(tail, answers, none + b@);
                behind_both(acc, none + b@, word_run(tail, answers, none));
                assert(acc + (none + b@) =~= acc + b@);
            },
            WordPart::ParseError(m) => {},
            WordPart::Command(script) => {
                if let Run::Finished { bytes, code, rest, .. } = eval_run(
                    script@,
                    true,
                    answers,
                ) {
                    a_word_keeps_its_front(tail, rest, acc + bytes);
                    a_word_keeps_its_front(tail, rest, none + bytes);
                    behind_both(acc, none + bytes, word_run(tail, rest, none));
                    assert(acc + (none + bytes) =~= acc + bytes);
                }
            },
            WordPart::Variable { name, index } => {
                if let Run::Finished { bytes: key, code, rest, .. } = opt_index_run(
                    index,
                    answers,
                ) {
                    if let Run::Finished { bytes, rest: after, .. } = traced_run(
                        name@,
                        index_given(index, key),
                        rest,
                    ) {
                        a_word_keeps_its_front(tail, after, acc + bytes);
                        a_word_keeps_its_front(tail, after, none + bytes);
                        behind_both(acc, none + bytes, word_run(tail, after, none));
                        assert(acc + (none + bytes) =~= acc + bytes);
                    }
                }
            },
        }
    }
}

/// A word is gone through part by part.
proof fn word_in_two_steps(a: Seq<WordPart>, b: Seq<WordPart>, answers: Seq<Answer>, acc: Seq<u8>)
    ensures
        word_run(a + b, answers, acc) == match word_run(a, answers, acc) {
            Run::Finished { bytes, rest, .. } => word_run(b, rest, bytes),
            r => r,
        },
    decreases a.len(),
{
    front_of_joined(a, b);
    if a.len() > 0 {
        let tail = a.subrange(1, a.len() as int);
        match a[0] {
            WordPart::Text(t) => word_in_two_steps(tail, b, answers, acc + t@),
            WordPart::ParseError(m) => {},
            WordPart::Command(script) => {
                if let Run::Finished { bytes, code, rest, .. } = eval_run(
                    script@,
                    true,
                    answers,
                ) {
                    word_in_two_steps(tail, b, rest, acc + bytes);
                }
            },
            WordPart::Variable { name, index } => {
                if let Run::Finished { bytes: key, code, rest, .. } = opt_index_run(
                    index,
                    answers,
                ) {
                    if let Run::Finished { bytes, rest: after, .. } = traced_run(
                        name@,
                        index_given(index, key),
                        rest,
                    ) {
                        word_in_two_steps(tail, b, after, acc + bytes);
                    }
                }
            },
        }
    }
}

/// The word of the parts `a` and then `b` comes to what `a` comes to followed
/// by what `b` comes to on the answers that `a` left. If `a` does not come to
/// anything, nothing of `b` is looked at.
pub proof fn a_word_is_its_parts_in_order(
    a: Seq<WordPart>,
    b: Seq<WordPart>,
    answers: Seq<Answer>,
)
    ensures
        match word_run(a, answers, Seq::empty()) {
            Run::Finished { bytes: x, rest, .. } => match word_run(b, rest, Seq::empty()) {
                Run::Finished { bytes: y, rest: left, .. } => word_run(
                    a + b,
                    answers,
                    Seq::empty(),
                ) matches Run::Finished { bytes, rest: r, .. } && bytes == x + y && r == left,
                other => word_run(a + b, answers, Seq::empty()) == other,
            },
            other => word_run(a + b, answers, Seq::empty()) == other,
        },
{
    word_in_two_steps(a, b, answers, Seq::empty());
    if let Run::Finished { bytes: x, rest, .. } = word_run(a, answers, Seq::empty()) {
        a_word_keeps_its_front(b, rest, x);
    }
}

/// No parts are no bytes, and use no answer.
pub proof fn no_parts_are_no_bytes(answers: Seq<Answer>)
    ensures
        word_run(Seq::empty(), answers, Seq::empty()) matches Run::Finished { bytes, rest, .. }
            && bytes == Seq::<u8>::empty() && rest == answers,
        subst_run(Seq::empty(), answers, Seq::empty()) matches Run::Finished { bytes, rest, .. }
            && bytes == Seq::<u8>::empty() && rest == answers,
        index_run(Seq::empty(), answers, Seq::empty()) matches Run::Finished {
            bytes,
            code: Code::Okay,
            rest,
            ..
        } && bytes == Seq::<u8>::empty() && rest == answers,
{
}

/// A word that is one text is that text, and uses no answer. One that cannot be
/// parsed is the error that says so.
pub proof fn a_text_stands_for_itself(t: Vec<u8>, answers: Seq<Answer>)
    ensures
        word_run(seq![WordPart::Text(t)], answers, Seq::empty()) matches Run::Finished {
            bytes,
            rest,
            ..
        } && bytes == t@ && rest == answers,
        word_run(seq![WordPart::ParseError(t)], answers, Seq::empty()) == Run::Raised(t@),
{
    reveal_with_fuel(word_run, 2);
    assert(Seq::<u8>::empty() + t@ =~= t@);
}

/// A word that is one script runs it, as part of the text it stands in. It is
/// the script's result if the script succeeds, and fails as the script ended if
/// it does not.
pub proof fn a_script_stands_for_its_result(p: WordPart, script: Seq<u8>, answers: Seq<Answer>)
    requires
        command(p, script),
    ensures
        answers.len() == 0 ==> word_run(seq![p], answers, Seq::empty()) == Run::Asking(
            AskView::Eval { script, located: true },
        ),
        answers.len() > 0 ==> (answers[0] matches Answer::Ran { code, result } ==> if code
            == Code::Okay {
            word_run(seq![p], answers, Seq::empty()) matches Run::Finished { bytes, rest, .. }
                && bytes == result@ && rest == answers.skip(1)
        } else {
            word_run(seq![p], answers, Seq::empty()) == Run::Failed(code)
        }),
{
    reveal_with_fuel(word_run, 2);
    if answers.len() > 0 {
        if let Answer::Ran { result, .. } = answers[0] {
            assert(Seq::<u8>::empty() + result@ =~= result@);
        }
    }
}

/// A word that is one variable fires its read traces and then reads it. It is
/// the value that was read, and fails with the code of a trace that failed.
pub proof fn a_variable_stands_for_its_value(p: WordPart, name: Seq<u8>, answers: Seq<Answer>)
    requires
        plain_variable(p, name),
    ensures
        answers.len() == 0 ==> word_run(seq![p], answers, Seq::empty()) == Run::Asking(
            AskView::FireRead { name, index: None },
        ),
        answers.len() > 0 && answers[0] is Traced ==> match answers[0]->Traced_0 {
            Some(code) => word_run(seq![p], answers, Seq::empty()) == Run::Failed(code),
            None => if answers.len() == 1 {
                word_run(seq![p], answers, Seq::empty()) == Run::Asking(
                    AskView::ReadVar { name, index: None },
                )
            } else {
                answers[1] matches Answer::Read(VarRead::Value(v)) ==> (word_run(
                    seq![p],
                    answers,
                    Seq::empty(),
                ) matches Run::Finished { bytes, rest, .. } && bytes == v@ && rest == answers.skip(
                    2,
                ))
            },
        },
{
    reveal_with_fuel(word_run, 2);
    value_after_traces(name, None, answers);
    if answers.len() > 1 {
        if let Answer::Read(VarRead::Value(v)) = answers[1] {
            assert(Seq::<u8>::empty() + v@ =~= v@);
        }
    }
}

/// The two answers that a variable takes.
proof fn value_after_traces(name: Seq<u8>, index: Option<Seq<u8>>, answers: Seq<Answer>)
    ensures
        answers.len() > 1 ==> answers.skip(1).len() > 0 && answers.skip(1)[0] == answers[1]
            && answers.skip(1).skip(1) == answers.skip(2),
{
    if answers.len() > 1 {
        assert(answers.skip(1).skip(1) =~= answers.skip(2));
    }
}

/// An element of an array is the one whose index the index parts come to. They
/// are gone through first; an index that does not come to anything, or that a
/// script ended early, ends the word.
pub proof fn an_element_is_found_by_its_index(
    p: WordPart,
    name: Seq<u8>,
    index: Seq<WordPart>,
    answers: Seq<Answer>,
)
    requires
        element(p, name, index),
    ensures
        match index_run(index, answers, Seq::empty()) {
            Run::Finished { bytes: key, code, rest, .. } => if code != Code::Okay {
                word_run(seq![p], answers, Seq::empty()) == Run::Failed(code)
            } else if rest.len() == 0 {
                word_run(seq![p], answers, Seq::empty()) == Run::Asking(
                    AskView::FireRead { name, index: Some(key) },
                )
            } else {
                rest[0] is Traced ==> match rest[0]->Traced_0 {
                    Some(failed) => word_run(seq![p], answers, Seq::empty()) == Run::Failed(
                        failed,
                    ),
                    None => if rest.len() == 1 {
                        word_run(seq![p], answers, Seq::empty()) == Run::Asking(
                            AskView::ReadVar { name, index: Some(key) },
                        )
                    } else {
                        rest[1] matches Answer::Read(VarRead::Value(v)) ==> (word_run(
                            seq![p],
                            answers,
                            Seq::empty(),
                        ) matches Run::Finished { bytes, rest: left, .. } && bytes == v@ && left
                            == rest.skip(2))
                    },
                }
            },
            other => word_run(seq![p], answers, Seq::empty()) == other,
        },
{
    reveal_with_fuel(word_run, 2);
    if let Run::Finished { bytes: key, rest, .. } = index_run(index, answers, Seq::empty()) {
        value_after_traces(name, Some(key), rest);
        if rest.len() > 1 {
            if let Answer::Read(VarRead::Value(v)) = rest[1] {
                assert(Seq::<u8>::empty() + v@ =~= v@);
            }
        }
    }
}

/// What an index has come to stays in front of what its further parts come to.
pub proof fn an_index_keeps_its_front(parts: Seq<WordPart>, answers: Seq<Answer>, acc: Seq<u8>)
    ensures
        index_run(parts, answers, acc) == behind(acc, index_run(parts, answers, Seq::empty())),
    decreases parts.len(),
{
    let none = Seq::<u8>::empty();
    if parts.len() == 0 {
        assert(acc + none =~= acc);
    } else {
        let tail = parts.subrange(1, parts.len() as int);
        assert(acc + none =~= acc);
        match parts[0] {
            WordPart::Text(b) => {
                an_index_keeps_its_front(tail, answers, acc + b@);
                an_index_keeps_its_front(tail, answers, none + b@);
                behind_both(acc, none + b@, index_run(tail, answers, none));
                assert(acc + (none + b@) =~= acc + b@);
            },
            WordPart::ParseError(m) => {},
            WordPart::Command(script) => {
                if let Run::Finished { bytes, code, rest, .. } = eval_run(
                    script@,
                    false,
                    answers,
                ) {
                    an_index_keeps_its_front(tail, rest, acc + bytes);
                    an_index_keeps_its_front(tail, rest, none + bytes);
                    behind_both(acc, none + bytes, index_run(tail, rest, none));
                    assert(acc + (none + bytes) =~= acc + bytes);
                }
            },
            WordPart::Variable { name, index } => {
                let head = match index {
                    Some(p) => index_run(p@, answers, Seq::empty()),
                    None => finished(Seq::empty(), answers),
                };
                if let Run::Finished { bytes: key, code, rest, .. } = head {
                    if let Run::Finished { bytes, rest: after, .. } = read_run(
                        name@,
                        index_given(index, key),
                        rest,
                    ) {
                        an_index_keeps_its_front(tail, after, acc + bytes);
                        an_index_keeps_its_front(tail, after, none + bytes);
                        behind_both(acc, none + bytes, index_run(tail, after, none));
                        assert(acc + (none + bytes) =~= acc + bytes);
                    }
                }
            },
        }
    }
}

/// An index is gone through part by part.
proof fn index_in_two_steps(
    a: Seq<WordPart>,
    b: Seq<WordPart>,
    answers: Seq<Answer>,
    acc: Seq<u8>,
)
    ensures
        index_run(a + b, answers, acc) == match index_run(a, answers, acc) {
            Run::Finished { bytes, code: Code::Okay, rest, .. } => index_run(b, rest, bytes),
            r => r,
        },
    decreases a.len(),
{
    front_of_joined(a, b);
    if a.len() > 0 {
        let tail = a.subrange(1, a.len() as int);
        match a[0] {
            WordPart::Text(t) => index_in_two_steps(tail, b, answers, acc + t@),
            WordPart::ParseError(m) => {},
            WordPart::Command(script) => {
                if let Run::Finished { bytes, code, rest, .. } = eval_run(
                    script@,
                    false,
                    answers,
                ) {
                    index_in_two_steps(tail, b, rest, acc + bytes);
                }
            },
            WordPart::Variable { name, index } => {
                let head = match index {
                    Some(p) => index_run(p@, answers, Seq::empty()),
                    None => finished(Seq::empty(), answers),
                };
                if let Run::Finished { bytes: key, code, rest, .. } = head {
                    if let Run::Finished { bytes, rest: after, .. } = read_run(
                        name@,
                        index_given(index, key),
                        rest,
                    ) {
                        index_in_two_steps(tail, b, after, acc + bytes);
                    }
                }
            },
        }
    }
}

/// The index of the parts `a` and then `b` comes to what `a` comes to followed
/// by what `b` comes to, unless a script in `a` ends the index: then `b` is not
/// looked at.
pub proof fn an_index_is_its_parts_in_order(
    a: Seq<WordPart>,
    b: Seq<WordPart>,
    answers: Seq<Answer>,
)
    ensures
        match index_run(a, answers, Seq::empty()) {
            Run::Finished { bytes: x, code: Code::Okay, rest, .. } => match index_run(
                b,
                rest,
                Seq::empty(),
            ) {
                Run::Finished { bytes: y, code, result, rest: left } => index_run(
                    a + b,
                    answers,
                    Seq::empty(),
                ) == (Run::Finished { bytes: x + y, code, result, rest: left }),
                other => index_run(a + b, answers, Seq::empty()) == other,
            },
            other => index_run(a + b, answers, Seq::empty()) == other,
        },
{
    index_in_two_steps(a, b, answers, Seq::empty());
    if let Run::Finished { bytes: x, code: Code::Okay, rest, .. } = index_run(
        a,
        answers,
        Seq::empty(),
    ) {
        an_index_keeps_its_front(b, rest, x);
    }
}

/// An index that is one text is that text. One that cannot be parsed is the
/// error that says so.
pub proof fn a_text_index_stands_for_itself(t: Vec<u8>, answers: Seq<Answer>)
    ensures
        index_run(seq![WordPart::Text(t)], answers, Seq::empty()) matches Run::Finished {
            bytes,
            code: Code::Okay,
            rest,
            ..
        } && bytes == t@ && rest == answers,
        index_run(seq![WordPart::ParseError(t)], answers, Seq::empty()) == Run::Raised(t@),
{
    reveal_with_fuel(index_run, 2);
    assert(Seq::<u8>::empty() + t@ =~= t@);
}

/// An index that is one script runs it, without a place in a text. It is the
/// result of a script that succeeds. An error fails; `return` ends the index
/// with its result and any other completion ends it with nothing.
pub proof fn a_script_index_stands_for_its_result(
    p: WordPart,
    script: Seq<u8>,
    answers: Seq<Answer>,
)
    requires
        command(p, script),
    ensures
        answers.len() == 0 ==> index_run(seq![p], answers, Seq::empty()) == Run::Asking(
            AskView::Eval { script, located: false },
        ),
        answers.len() > 0 ==> (answers[0] matches Answer::Ran { code, result } ==> match code {
            Code::Okay => index_run(seq![p], answers, Seq::empty()) matches Run::Finished {
                bytes,
                code: Code::Okay,
                rest,
                ..
            } && bytes == result@ && rest == answers.skip(1),
            Code::Error => index_run(seq![p], answers, Seq::empty()) == Run::Failed(Code::Error),
            Code::Return => index_run(seq![p], answers, Seq::empty()) == (Run::Finished {
                bytes: result@,
                code,
                result: result@,
                rest: answers.skip(1),
            }),
            _ => index_run(seq![p], answers, Seq::empty()) == (Run::Finished {
                bytes: Seq::empty(),
                code,
                result: result@,
                rest: answers.skip(1),
            }),
        }),
{
    reveal_with_fuel(index_run, 2);
    if answers.len() > 0 {
        if let Answer::Ran { result, .. } = answers[0] {
            assert(Seq::<u8>::empty() + result@ =~= result@);
        }
    }
}

/// An index that is one variable is its value. Its traces are not fired.
pub proof fn a_variable_index_stands_for_its_value(
    p: WordPart,
    name: Seq<u8>,
    answers: Seq<Answer>,
)
    requires
        plain_variable(p, name),
    ensures
        answers.len() == 0 ==> index_run(seq![p], answers, Seq::empty()) == Run::Asking(
            AskView::ReadVar { name, index: None },
        ),
        answers.len() > 0 ==> (answers[0] matches Answer::Read(VarRead::Value(v)) ==> (index_run(
            seq![p],
            answers,
            Seq::empty(),
        ) matches Run::Finished { bytes, code: Code::Okay, rest, .. } && bytes == v@ && rest
            == answers.skip(1))),
{
    reveal_with_fuel(index_run, 2);
    if answers.len() > 0 {
        if let Answer::Read(VarRead::Value(v)) = answers[0] {
            assert(Seq::<u8>::empty() + v@ =~= v@);
        }
    }
}

/// An index that is one array element is the element whose own index the inner
/// parts come to. If a script ends the inner index, it ends this one with
/// nothing.
pub proof fn an_element_index_stands_for_its_value(
    p: WordPart,
    name: Seq<u8>,
    index: Seq<WordPart>,
    answers: Seq<Answer>,
)
    requires
        element(p, name, index),
    ensures
        match index_run(index, answers, Seq::empty()) {
            Run::Finished { bytes: key, code, result, rest } => if code != Code::Okay {
                index_run(seq![p], answers, Seq::empty()) == (Run::Finished {
                    bytes: Seq::empty(),
                    code,
                    result,
                    rest,
                })
            } else if rest.len() == 0 {
                index_run(seq![p], answers, Seq::empty()) == Run::Asking(
                    AskView::ReadVar { name, index: Some(key) },
                )
            } else {
                rest[0] matches Answer::Read(VarRead::Value(v)) ==> (index_run(
                    seq![p],
                    answers,
                    Seq::empty(),
                ) matches Run::Finished { bytes, code: Code::Okay, rest: left, .. } && bytes == v@
                    && left == rest.skip(1))
            },
            other => index_run(seq![p], answers, Seq::empty()) == other,
        },
{
    reveal_with_fuel(index_run, 2);
    assert(seq![p].subrange(1, 1).len() == 0);
    if let Run::Finished { rest, .. } = index_run(index, answers, Seq::empty()) {
        if rest.len() > 0 {
            if let Answer::Read(VarRead::Value(v)) = rest[0] {
                assert(Seq::<u8>::empty() + v@ =~= v@);
            }
        }
    }
}

/// What a `subst` string has come to stays in front of what its further parts
/// come to.
pub proof fn a_subst_string_keeps_its_front(
    parts: Seq<WordPart>,
    answers: Seq<Answer>,
    acc: Seq<u8>,
)
    ensures
        subst_run(parts, answers, acc) == behind(acc, subst_run(parts, answers, Seq::empty())),
        subst_run(parts, answers, acc) matches Run::Finished { bytes, .. } ==> acc.is_prefix_of(
            bytes,
        ),
    decreases parts.len(),
{
    let none = Seq::<u8>::empty();
    assert(acc + none =~= acc);
    if parts.len() > 0 {
        let tail = parts.subrange(1, parts.len() as int);
        match parts[0] {
            WordPart::Text(b) => {
                a_subst_string_keeps_its_front(tail, answers, acc + b@);
                a_subst_string_keeps_its_front(tail, answers, none + b@);
                behind_both(acc, none + b@, subst_run(tail, answers, none));
                assert(acc + (none + b@) =~= acc + b@);
            },
            WordPart::ParseError(m) => {},
            WordPart::Command(script) => {
                if let Run::Finished { bytes, code, rest, .. } = eval_run(
                    script@,
                    true,
                    answers,
                ) {
                    a_subst_string_keeps_its_front(tail, rest, acc);
                    a_subst_string_keeps_its_front(tail, rest, acc + bytes);
                    a_subst_string_keeps_its_front(tail, rest, none + bytes);
                    behind_both(acc, none + bytes, subst_run(tail, rest, none));
                    assert(acc + (none + bytes) =~= acc + bytes);
                }
            },
            WordPart::Variable { name, index } => {
                if let Run::Finished { bytes: key, code, result, rest } =
                    opt_index_run(index, answers) {
                    a_subst_string_keeps_its_front(tail, rest, acc);
                    a_subst_string_keeps_its_front(tail, rest, acc + result);
                    a_subst_string_keeps_its_front(tail, rest, none + result);
                    behind_both(acc, none + result, subst_run(tail, rest, none));
                    assert(acc + (none + result) =~= acc + result);
                    if let Run::Finished { bytes, rest: after, .. } = traced_run(
                        name@,
                        index_given(index, key),
                        rest,
                    ) {
                        a_subst_string_keeps_its_front(tail, after, acc + bytes);
                        a_subst_string_keeps_its_front(tail, after, none + bytes);
                        behind_both(acc, none + bytes, subst_run(tail, after, none));
                        assert(acc + (none + bytes) =~= acc + bytes);
                    }
                }
            },
        }
    }
}

/// A `subst` string goes on behind the parts of it that come to something as a
/// word.
proof fn subst_in_two_steps(
    a: Seq<WordPart>,
    b: Seq<WordPart>,
    answers: Seq<Answer>,
    acc: Seq<u8>,
)
    ensures
        word_run(a, answers, acc) matches Run::Finished { bytes, rest, .. } ==> subst_run(
            a + b,
            answers,
            acc,
        ) == subst_run(b, rest, bytes),
    decreases a.len(),
{
    front_of_joined(a, b);
    if a.len() > 0 {
        let tail = a.subrange(1, a.len() as int);
        match a[0] {
            WordPart::Text(t) => subst_in_two_steps(tail, b, answers, acc + t@),
            WordPart::ParseError(m) => {},
            WordPart::Command(script) => {
                if let Run::Finished { bytes, code, rest, .. } = eval_run(
                    script@,
                    true,
                    answers,
                ) {
                    subst_in_two_steps(tail, b, rest, acc + bytes);
                }
            },
            WordPart::Variable { name, index } => {
                if let Run::Finished { bytes: key, code, rest, .. } = opt_index_run(
                    index,
                    answers,
                ) {
                    if let Run::Finished { bytes, rest: after, .. } = traced_run(
                        name@,
                        index_given(index, key),
                        rest,
                    ) {
                        subst_in_two_steps(tail, b, after, acc + bytes);
                    }
                }
            },
        }
    }
}

/// A `subst` string whose scripts all succeed comes to what the same parts come
/// to as a word, on the same answers. It also asks what the word asks and
/// raises what the word raises.
pub proof fn a_subst_string_is_a_word_while_scripts_succeed(
    parts: Seq<WordPart>,
    answers: Seq<Answer>,
    acc: Seq<u8>,
)
    ensures
        word_run(parts, answers, acc) !is Failed ==> subst_run(parts, answers, acc) == word_run(
            parts,
            answers,
            acc,
        ),
    decreases parts.len(),
{
    if parts.len() > 0 {
        let tail = parts.subrange(1, parts.len() as int);
        match parts[0] {
            WordPart::Text(b) => a_subst_string_is_a_word_while_scripts_succeed(
                tail,
                answers,
                acc + b@,
            ),
            WordPart::ParseError(m) => {},
            WordPart::Command(script) => {
                if let Run::Finished { bytes, code, rest, .. } = eval_run(
                    script@,
                    true,
                    answers,
                ) {
                    a_subst_string_is_a_word_while_scripts_succeed(tail, rest, acc + bytes);
                }
            },
            WordPart::Variable { name, index } => {
                if let Run::Finished { bytes: key, code, rest, .. } = opt_index_run(
                    index,
                    answers,
                ) {
                    if let Run::Finished { bytes, rest: after, .. } = traced_run(
                        name@,
                        index_given(index, key),
                        rest,
                    ) {
                        a_subst_string_is_a_word_while_scripts_succeed(tail, after, acc + bytes);
                    }
                }
            },
        }
    }
}

/// A `subst` string of a text, a variable and a text is the first text, the
/// value that was read and the second text.
pub proof fn a_subst_string_holds_what_was_read(
    t: Vec<u8>,
    variable: WordPart,
    name: Seq<u8>,
    u: Vec<u8>,
    value: Vec<u8>,
    more: Seq<Answer>,
)
    requires
        plain_variable(variable, name),
    ensures
        ({
            let parts = seq![WordPart::Text(t), variable, WordPart::Text(u)];
            let answers = seq![Answer::Traced(None), Answer::Read(VarRead::Value(value))] + more;
            &&& subst_run(parts, answers, Seq::empty()) matches Run::Finished { bytes, rest, .. }
            &&& bytes == t@ + value@ + u@
            &&& rest == more
        }),
{
    let parts = seq![WordPart::Text(t), variable, WordPart::Text(u)];
    let answers = seq![Answer::Traced(None), Answer::Read(VarRead::Value(value))] + more;
    let none = Seq::<u8>::empty();
    let two = seq![variable, WordPart::Text(u)];
    let one = seq![WordPart::Text(u)];
    assert(parts.subrange(1, 3) =~= two);
    assert(two.subrange(1, 2) =~= one);
    assert(answers.skip(1).skip(1) =~= more);
    assert(answers.skip(1)[0] == answers[1]);
    assert(subst_run(parts, answers, none) == subst_run(two, answers, none + t@));
    assert(subst_run(two, answers, none + t@) == subst_run(one, more, none + t@ + value@));
    assert(one.subrange(1, 1).len() == 0);
    assert(subst_run(one, more, none + t@ + value@) == subst_run(
        one.subrange(1, 1),
        more,
        none + t@ + value@ + u@,
    ));
    assert(none + t@ + value@ + u@ =~= t@ + value@ + u@);
}

/// A script in a `subst` string, behind parts that came to something: the
/// result of one that succeeds stands in its place, and so does that of one
/// that ends with `return` or a code of its own. `break` ends the string with
/// what came before, `continue` leaves the script out, and an error fails.
pub proof fn a_subst_string_takes_every_completion_but_errors(
    a: Seq<WordPart>,
    p: WordPart,
    script: Seq<u8>,
    b: Seq<WordPart>,
    answers: Seq<Answer>,
)
    requires
        command(p, script),
        word_run(a, answers, Seq::empty()) is Finished,
        word_run(a, answers, Seq::empty())->rest.len() > 0,
        word_run(a, answers, Seq::empty())->rest[0] is Ran,
    ensures
        ({
            let front = word_run(a, answers, Seq::empty())->bytes;
            let first = word_run(a, answers, Seq::empty())->rest[0];
            let more = word_run(a, answers, Seq::empty())->rest.skip(1);
            let got = subst_run(a + seq![p] + b, answers, Seq::empty());
            match first->code {
                Code::Break => got matches Run::Finished { bytes, rest, .. } && bytes == front
                    && rest == more,
                Code::Continue => match subst_run(b, more, Seq::empty()) {
                    Run::Finished { bytes: y, rest: left, .. } => got matches Run::Finished {
                        bytes,
                        rest,
                        ..
                    } && bytes == front + y && rest == left,
                    other => got == other,
                },
                Code::Error => got == Run::Failed(Code::Error),
                _ => match subst_run(b, more, Seq::empty()) {
                    Run::Finished { bytes: y, rest: left, .. } => got matches Run::Finished {
                        bytes,
                        rest,
                        ..
                    } && bytes == front + first->result@ + y && rest == left,
                    other => got == other,
                },
            }
        }),
{
    let front = word_run(a, answers, Seq::empty())->bytes;
    let rest = word_run(a, answers, Seq::empty())->rest;
    let more = rest.skip(1);
    let tail = seq![p] + b;
    assert(a + seq![p] + b =~= a + tail);
    subst_in_two_steps(a, tail, answers, Seq::empty());
    assert(tail[0] == p);
    assert(tail.subrange(1, tail.len() as int) =~= b);
    a_subst_string_keeps_its_front(b, more, front);
    a_subst_string_keeps_its_front(b, more, front + rest[0]->result@);
}

/// An array element in a `subst` string whose index a script ended: `break`
/// ends the string with what came before, `continue` leaves the element out,
/// and otherwise the script's result stands in its place. The variable is not
/// read.
pub proof fn an_ended_index_ends_the_element_only(
    a: Seq<WordPart>,
    p: WordPart,
    name: Seq<u8>,
    index: Seq<WordPart>,
    b: Seq<WordPart>,
    answers: Seq<Answer>,
)
    requires
        element(p, name, index),
        word_run(a, answers, Seq::empty()) is Finished,
        index_run(index, word_run(a, answers, Seq::empty())->rest, Seq::empty()) is Finished,
        index_run(index, word_run(a, answers, Seq::empty())->rest, Seq::empty())->code
            != Code::Okay,
    ensures
        ({
            let front = word_run(a, answers, Seq::empty())->bytes;
            let ended = index_run(
                index,
                word_run(a, answers, Seq::empty())->rest,
                Seq::empty(),
            );
            let got = subst_run(a + seq![p] + b, answers, Seq::empty());
            match ended->code {
                Code::Break => got matches Run::Finished { bytes, rest, .. } && bytes == front
                    && rest == ended->rest,
                Code::Continue => match subst_run(b, ended->rest, Seq::empty()) {
                    Run::Finished { bytes: y, rest: left, .. } => got matches Run::Finished {
                        bytes,
                        rest,
                        ..
                    } && bytes == front + y && rest == left,
                    other => got == other,
                },
                _ => match subst_run(b, ended->rest, Seq::empty()) {
                    Run::Finished { bytes: y, rest: left, .. } => got matches Run::Finished {
                        bytes,
                        rest,
                        ..
                    } && bytes == front + ended->result + y && rest == left,
                    other => got == other,
                },
            }
        }),
{
    let front = word_run(a, answers, Seq::empty())->bytes;
    let rest = word_run(a, answers, Seq::empty())->rest;
    let ended = index_run(index, rest, Seq::empty());
    let tail = seq![p] + b;
    assert(a + seq![p] + b =~= a + tail);
    subst_in_two_steps(a, tail, answers, Seq::empty());
    assert(tail[0] == p);
    assert(tail.subrange(1, tail.len() as int) =~= b);
    a_subst_string_keeps_its_front(b, ended->rest, front);
    a_subst_string_keeps_its_front(b, ended->rest, front + ended->result);
}

/// A read trace that fails fails the `subst` string with its code.
pub proof fn a_failed_trace_fails_the_subst_string(
    a: Seq<WordPart>,
    p: WordPart,
    name: Seq<u8>,
    b: Seq<WordPart>,
    answers: Seq<Answer>,
    code: Code,
)
    requires
        plain_variable(p, name),
        word_run(a, answers, Seq::empty()) is Finished,
        word_run(a, answers, Seq::empty())->rest.len() > 0,
        word_run(a, answers, Seq::empty())->rest[0] == Answer::Traced(Some(code)),
    ensures
        subst_run(a + seq![p] + b, answers, Seq::empty()) == Run::Failed(code),
{
    let tail = seq![p] + b;
    assert(a + seq![p] + b =~= a + tail);
    subst_in_two_steps(a, tail, answers, Seq::empty());
    assert(tail[0] == p);
}

/// What a word that needs nothing more is reported as: its bytes if it came to
/// any, its code if it failed, and the interpreter is left alone. Only a word
/// that is one variable or one script is that value itself.
pub proof fn a_word_is_reported_as_it_ran(
    before: Interp,
    after: Interp,
    parts: Seq<WordPart>,
    answers: Seq<Answer>,
    s: Substitution,
)
    requires
        carried_out(
            before,
            after,
            word_run(parts, answers, Seq::empty()),
            is_single_value(parts),
            s,
        ),
    ensures
        match word_run(parts, answers, Seq::empty()) {
            Run::Finished { bytes, .. } => {
                &&& s matches Substitution::Done { bytes: b, same_value }
                &&& b@ == bytes
                &&& same_value <==> parts.len() == 1 && (parts[0] is Variable
                    || parts[0] is Command)
                &&& after == before
            },
            Run::Failed(code) => s == Substitution::Failed(code) && after == before,
            Run::Raised(m) => s == Substitution::Failed(Code::Error) && after.state.result@ == m,
            Run::Asking(a) => (s matches Substitution::Ask(q) && q@ == a) && after == before,
        },
{
}

/// Whether part `i`, on its own and on the answers `states[i]`, comes to
/// `pieces[i]` and leaves the answers `states[i + 1]`.
pub open spec fn comes_to(
    parts: Seq<WordPart>,
    states: Seq<Seq<Answer>>,
    pieces: Seq<Seq<u8>>,
    i: int,
) -> bool {
    word_run(seq![parts[i]], states[i], Seq::empty()) matches Run::Finished { bytes, rest, .. }
        && bytes == pieces[i] && rest == states[i + 1]
}

/// A word whose parts all come to something is what they come to, one behind the
/// other in the order of the parts; and a `subst` string of the same parts is
/// the same.
pub proof fn a_word_is_what_its_parts_come_to(
    parts: Seq<WordPart>,
    states: Seq<Seq<Answer>>,
    pieces: Seq<Seq<u8>>,
)
    requires
        states.len() == parts.len() + 1,
        pieces.len() == parts.len(),
        forall|i: int| 0 <= i < parts.len() ==> #[trigger] comes_to(parts, states, pieces, i),
    ensures
        word_run(parts, states[0], Seq::empty()) matches Run::Finished { bytes, rest, .. } && bytes
            == pieces.flatten() && rest == states.last(),
        subst_run(parts, states[0], Seq::empty()) matches Run::Finished { bytes, rest, .. }
            && bytes == pieces.flatten() && rest == states.last(),
    decreases parts.len(),
{
    if parts.len() == 0 {
        assert(parts =~= Seq::empty());
        assert(pieces =~= Seq::empty());
        no_parts_are_no_bytes(states[0]);
    } else {
        let first = seq![parts[0]];
        let more = parts.skip(1);
        let left = states.skip(1);
        let tail = pieces.drop_first();
        assert(comes_to(parts, states, pieces, 0));
        assert forall|i: int| 0 <= i < more.len() implies #[trigger] comes_to(
            more,
            left,
            tail,
            i,
        ) by {
            assert(comes_to(parts, states, pieces, i + 1));
        }
        a_word_is_what_its_parts_come_to(more, left, tail);
        a_word_is_its_parts_in_order(first, more, states[0]);
        assert(first + more =~= parts);
        assert(left.last() == states.last());
    }
    a_subst_string_is_a_word_while_scripts_succeed(parts, states[0], Seq::empty());
}

/// A variable that cannot be read is an error that says why, in a word, in a
/// `subst` string and in an index alike; nothing behind it is looked at.
pub proof fn a_missing_variable_is_an_error(
    a: Seq<WordPart>,
    p: WordPart,
    name: Seq<u8>,
    b: Seq<WordPart>,
    answers: Seq<Answer>,
    is_array: bool,
    exists_there: bool,
)
    requires
        plain_variable(p, name),
        word_run(a, answers, Seq::empty()) is Finished,
        word_run(a, answers, Seq::empty())->rest.len() > 1,
        word_run(a, answers, Seq::empty())->rest[0] == Answer::Traced(None),
        word_run(a, answers, Seq::empty())->rest[1] == Answer::Read(
            VarRead::Missing { is_array, exists_there },
        ),
    ensures
        word_run(a + seq![p] + b, answers, Seq::empty()) == Run::Raised(
            read_miss(name, None, is_array, exists_there),
        ),
        subst_run(a + seq![p] + b, answers, Seq::empty()) == Run::Raised(
            read_miss(name, None, is_array, exists_there),
        ),
        index_run(
            seq![p],
            word_run(a, answers, Seq::empty())->rest.skip(1),
            Seq::empty(),
        ) == Run::Raised(read_miss(name, None, is_array, exists_there)),
{
    let tail = seq![p] + b;
    let rest = word_run(a, answers, Seq::empty())->rest;
    assert(a + seq![p] + b =~= a + tail);
    assert(tail[0] == p);
    assert(rest.skip(1)[0] == rest[1]);
    word_in_two_steps(a, tail, answers, Seq::empty());
    subst_in_two_steps(a, tail, answers, Seq::empty());
}

/// An array element that cannot be read is an error that names it with the index
/// that the index parts came to.
pub proof fn a_missing_element_is_an_error(
    p: WordPart,
    name: Seq<u8>,
    index: Seq<WordPart>,
    answers: Seq<Answer>,
    is_array: bool,
    exists_there: bool,
)
    requires
        element(p, name, index),
        index_run(index, answers, Seq::empty()) is Finished,
        index_run(index, answers, Seq::empty())->code == Code::Okay,
        index_run(index, answers, Seq::empty())->rest.len() > 1,
        index_run(index, answers, Seq::empty())->rest[0] == Answer::Traced(None),
        index_run(index, answers, Seq::empty())->rest[1] == Answer::Read(
            VarRead::Missing { is_array, exists_there },
        ),
    ensures
        word_run(seq![p], answers, Seq::empty()) == Run::Raised(
            read_miss(
                name,
                Some(index_run(index, answers, Seq::empty())->bytes),
                is_array,
                exists_there,
            ),
        ),
{
    let rest = index_run(index, answers, Seq::empty())->rest;
    assert(rest.skip(1)[0] == rest[1]);
}

} // verus!
