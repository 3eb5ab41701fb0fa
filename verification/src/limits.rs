//! `interp limit`, `interp recursionlimit` and `interp debug`.

use vstd::prelude::*;

use crate::bytes::{copied, framed, has_prefix, lit, starts_with, text, views};
use crate::code::Code;
use crate::errors::{raised};
use crate::frames::{entry_views, Entry};
use crate::number::{
    decimal, decimal_i64, expected_integer, integer_word, opt_decimal, opt_int, parse_limit_int,
    parse_recursion_limit, spelled, trimmed,
};
use crate::state::{GuardDomain, Interp, InterpState};

verus! {

/// The limits of one interpreter.
pub struct LimitSet {
    pub cmd_command: Vec<u8>,
    pub cmd_granularity: i64,
    pub cmd_value: Option<i64>,
    pub time_command: Vec<u8>,
    pub time_granularity: i64,
    /// The deadline in seconds and milliseconds of the wall clock.
    pub time_value: Option<(i64, i64)>,
}

/// What a [`LimitSet`] holds.
pub struct LimitView {
    pub cmd_command: Seq<u8>,
    pub cmd_granularity: i64,
    pub cmd_value: Option<i64>,
    pub time_command: Seq<u8>,
    pub time_granularity: i64,
    pub time_value: Option<(i64, i64)>,
}

impl View for LimitSet {
    type V = LimitView;

    open spec fn view(&self) -> LimitView {
        LimitView {
            cmd_command: self.cmd_command@,
            cmd_granularity: self.cmd_granularity,
            cmd_value: self.cmd_value,
            time_command: self.time_command@,
            time_granularity: self.time_granularity,
            time_value: self.time_value,
        }
    }
}

impl LimitView {
    /// Granularities are positive, a command limit is not negative, and a
    /// deadline is normalised.
    pub open spec fn valid(self) -> bool {
        &&& self.cmd_granularity >= 1
        &&& self.time_granularity >= 1
        &&& self.cmd_value matches Some(n) ==> n >= 0
        &&& self.time_value matches Some(t) ==> t.0 >= 0 && 0 <= t.1 < 1000
    }
}

/// No limit.
pub open spec fn no_limits() -> LimitView {
    LimitView {
        cmd_command: Seq::empty(),
        cmd_granularity: 1,
        cmd_value: None,
        time_command: Seq::empty(),
        time_granularity: 10,
        time_value: None,
    }
}

impl Default for LimitSet {
    fn default() -> (r: LimitSet)
        ensures
            r@ == no_limits(),
            r@.valid(),
    {
        LimitSet {
            cmd_command: Vec::new(),
            cmd_granularity: 1,
            cmd_value: None,
            time_command: Vec::new(),
            time_granularity: 10,
            time_value: None,
        }
    }
}

/// An option of `interp limit path commands`.
#[derive(Debug, Clone, Copy, PartialEq, Eq, Structural)]
pub enum CommandsOption {
    Command,
    Granularity,
    Value,
}

/// An option of `interp limit path time`.
#[derive(Debug, Clone, Copy, PartialEq, Eq, Structural)]
pub enum TimeOption {
    Command,
    Granularity,
    Milliseconds,
    Seconds,
}

/// The kind of limit that is meant, with what its option table answers for each
/// option word in turn.
pub enum LimitType {
    Commands(Vec<Result<CommandsOption, Vec<u8>>>),
    Time(Vec<Result<TimeOption, Vec<u8>>>),
}

/// What a query or a configuration answers.
#[derive(Debug)]
pub enum Reply {
    Text(Vec<u8>),
    /// A list of these words.
    List(Vec<Vec<u8>>),
}

impl Reply {
    /// The reply is the text `s`.
    pub open spec fn says(self, s: Seq<u8>) -> bool {
        self matches Reply::Text(b) && b@ == s
    }

    /// The reply is the list of `ws`.
    pub open spec fn lists(self, ws: Seq<Seq<u8>>) -> bool {
        self matches Reply::List(l) && views(l@) == ws
    }
}

/// A dictionary as the list of its keys and values.
pub open spec fn flattened(pairs: Seq<(Seq<u8>, Seq<u8>)>) -> Seq<Seq<u8>>
    decreases pairs.len(),
{
    if pairs.len() == 0 {
        Seq::empty()
    } else {
        flattened(pairs.drop_last()) + seq![pairs.last().0, pairs.last().1]
    }
}

/// Builds a dictionary as the list of its keys and values.
pub fn dict_obj(pairs: &[Entry]) -> (r: Vec<Vec<u8>>)
    ensures
        views(r@) == flattened(entry_views(pairs@)),
{
    let mut out: Vec<Vec<u8>> = Vec::new();
    assert(views(out@) =~= Seq::empty());
    let mut i: usize = 0;
    while i < pairs.len()
        invariant
            i <= pairs@.len(),
            views(out@) == flattened(entry_views(pairs@).take(i as int)),
        decreases pairs@.len() - i,
    {
        let ghost before = views(out@);
        out.push(copied(&pairs[i].key));
        out.push(copied(&pairs[i].value));
        proof {
            let ps = entry_views(pairs@);
            assert(ps.take(i + 1).drop_last() =~= ps.take(i as int));
            assert(views(out@) =~= before + seq![ps[i as int].0, ps[i as int].1]);
        }
        i = i + 1;
    }
    assert(entry_views(pairs@).take(i as int) =~= entry_views(pairs@));
    out
}

/// The answer of an option table: the option a word names, or the message for a
/// word that names none or more than one.
pub open spec fn answer<T>(a: Result<T, Vec<u8>>) -> Result<T, Seq<u8>> {
    match a {
        Ok(t) => Ok(t),
        Err(m) => Err(m@),
    }
}

/// The option and value pairs that `opts` spells, each option as its table
/// answered.
pub open spec fn option_pairs<T>(
    opts: Seq<Vec<u8>>,
    chosen: Seq<Result<T, Vec<u8>>>,
) -> Seq<(Result<T, Seq<u8>>, Seq<u8>)> {
    Seq::new(opts.len() / 2, |k: int| (answer(chosen[k]), opts[2 * k + 1]@))
}

/// Why the value of one `commands` option is refused, if it is.
pub open spec fn commands_refusal(o: CommandsOption, v: Seq<u8>) -> Option<Seq<u8>> {
    match (o, integer_word(v)) {
        (CommandsOption::Command, _) => None,
        (_, None) => Some(expected_integer(v)),
        (CommandsOption::Granularity, Some(n)) => if n < 1 {
            Some(text("granularity must be at least 1"))
        } else {
            None
        },
        (CommandsOption::Value, Some(n)) => if n < 0 {
            Some(text("command limit value must be at least 0"))
        } else {
            None
        },
    }
}

/// The limits after one `commands` option took its value.
pub open spec fn commands_put(l: LimitView, o: CommandsOption, v: Seq<u8>) -> LimitView {
    match o {
        CommandsOption::Command => LimitView { cmd_command: v, ..l },
        CommandsOption::Granularity => LimitView {
            cmd_granularity: integer_word(v)->0 as i64,
            ..l
        },
        CommandsOption::Value => LimitView { cmd_value: Some(integer_word(v)->0 as i64), ..l },
    }
}

/// The limits after the pairs of a `commands` configuration were taken in
/// order, up to the first that is refused, and the refusal.
pub open spec fn commands_walk(
    l: LimitView,
    pairs: Seq<(Result<CommandsOption, Seq<u8>>, Seq<u8>)>,
) -> (LimitView, Option<Seq<u8>>)
    decreases pairs.len(),
{
    if pairs.len() == 0 {
        (l, None)
    } else {
        match pairs[0].0 {
            Err(m) => (l, Some(m)),
            Ok(o) => match commands_refusal(o, pairs[0].1) {
                Some(m) => (l, Some(m)),
                None => commands_walk(commands_put(l, o, pairs[0].1), pairs.skip(1)),
            },
        }
    }
}

/// Why the value of one `time` option is refused, if it is.
pub open spec fn time_refusal(o: TimeOption, v: Seq<u8>) -> Option<Seq<u8>> {
    match (o, integer_word(v)) {
        (TimeOption::Command, _) => None,
        (_, None) => Some(expected_integer(v)),
        (TimeOption::Granularity, Some(n)) => if n < 1 {
            Some(text("granularity must be at least 1"))
        } else {
            None
        },
        (TimeOption::Seconds, Some(n)) => if n < 0 {
            Some(text("seconds must be non-negative"))
        } else {
            None
        },
        (TimeOption::Milliseconds, Some(n)) => if n < 0 {
            Some(text("milliseconds must be non-negative"))
        } else {
            None
        },
    }
}

/// A `time` configuration under way: the limits, and the deadline that is
/// committed at the end.
pub struct TimeWalk {
    pub limits: LimitView,
    pub seconds: int,
    pub millis: int,
    pub touched: bool,
}

/// The beginning of a `time` configuration.
pub open spec fn time_start(l: LimitView) -> TimeWalk {
    match l.time_value {
        Some(t) => TimeWalk {
            limits: l,
            seconds: t.0 as int,
            millis: t.1 as int,
            touched: true,
        },
        None => TimeWalk { limits: l, seconds: 0, millis: 0, touched: false },
    }
}

/// The configuration after one `time` option took its value.
pub open spec fn time_put(w: TimeWalk, o: TimeOption, v: Seq<u8>) -> TimeWalk {
    match o {
        TimeOption::Command => TimeWalk {
            limits: LimitView { time_command: v, ..w.limits },
            ..w
        },
        TimeOption::Granularity => TimeWalk {
            limits: LimitView { time_granularity: integer_word(v)->0 as i64, ..w.limits },
            ..w
        },
        TimeOption::Seconds => TimeWalk { seconds: integer_word(v)->0, touched: true, ..w },
        TimeOption::Milliseconds => TimeWalk { millis: integer_word(v)->0, touched: true, ..w },
    }
}

/// The configuration after the pairs were taken in order, up to the first that
/// is refused, and the refusal.
pub open spec fn time_walk(
    w: TimeWalk,
    pairs: Seq<(Result<TimeOption, Seq<u8>>, Seq<u8>)>,
) -> (TimeWalk, Option<Seq<u8>>)
    decreases pairs.len(),
{
    if pairs.len() == 0 {
        (w, None)
    } else {
        match pairs[0].0 {
            Err(m) => (w, Some(m)),
            Ok(o) => match time_refusal(o, pairs[0].1) {
                Some(m) => (w, Some(m)),
                None => time_walk(time_put(w, o, pairs[0].1), pairs.skip(1)),
            },
        }
    }
}

/// The limits once a whole configuration was accepted: excess milliseconds are
/// carried into the seconds.
pub open spec fn time_committed(w: TimeWalk) -> LimitView {
    if w.touched {
        LimitView {
            time_value: Some(
                ((w.seconds + w.millis / 1000) as i64, (w.millis % 1000) as i64),
            ),
            ..w.limits
        }
    } else {
        w.limits
    }
}

/// Carrying excess milliseconds into the seconds keeps the deadline.
pub proof fn normalised_deadline(seconds: int, millis: int)
    requires
        millis >= 0,
    ensures
        0 <= millis % 1000 < 1000,
        (seconds + millis / 1000) * 1000 + millis % 1000 == seconds * 1000 + millis,
{
}

/// A configuration that was accepted leaves valid limits valid.
pub proof fn commands_walk_stays_valid(
    l: LimitView,
    pairs: Seq<(Result<CommandsOption, Seq<u8>>, Seq<u8>)>,
)
    requires
        l.valid(),
    ensures
        commands_walk(l, pairs).0.valid(),
    decreases pairs.len(),
{
    if pairs.len() > 0 && pairs[0].0 is Ok && commands_refusal(
        pairs[0].0->Ok_0,
        pairs[0].1,
    ) is None {
        commands_walk_stays_valid(
            commands_put(l, pairs[0].0->Ok_0, pairs[0].1),
            pairs.skip(1),
        );
    }
}

/// The dictionary of the `commands` limit.
pub open spec fn commands_dict(l: LimitView) -> Seq<(Seq<u8>, Seq<u8>)> {
    seq![
        (text("-command"), l.cmd_command),
        (text("-granularity"), decimal(l.cmd_granularity as int)),
        (text("-value"), opt_decimal(l.cmd_value)),
    ]
}

/// One option of the `commands` limit.
pub open spec fn commands_get(l: LimitView, o: CommandsOption) -> Seq<u8> {
    match o {
        CommandsOption::Command => l.cmd_command,
        CommandsOption::Granularity => decimal(l.cmd_granularity as int),
        CommandsOption::Value => opt_decimal(l.cmd_value),
    }
}

/// The seconds and the milliseconds of the deadline, each unset without one.
pub open spec fn deadline_parts(l: LimitView) -> (Option<i64>, Option<i64>) {
    match l.time_value {
        Some(t) => (Some(t.0), Some(t.1)),
        None => (None, None),
    }
}

/// The dictionary of the `time` limit.
pub open spec fn time_dict(l: LimitView) -> Seq<(Seq<u8>, Seq<u8>)> {
    seq![
        (text("-command"), l.time_command),
        (text("-granularity"), decimal(l.time_granularity as int)),
        (text("-milliseconds"), opt_decimal(deadline_parts(l).1)),
        (text("-seconds"), opt_decimal(deadline_parts(l).0)),
    ]
}

/// One option of the `time` limit.
pub open spec fn time_get(l: LimitView, o: TimeOption) -> Seq<u8> {
    match o {
        TimeOption::Command => l.time_command,
        TimeOption::Granularity => decimal(l.time_granularity as int),
        TimeOption::Milliseconds => opt_decimal(deadline_parts(l).1),
        TimeOption::Seconds => opt_decimal(deadline_parts(l).0),
    }
}

fn entry(key: &str, value: Vec<u8>) -> (e: Entry)
    ensures
        e.key@ == text(key),
        e.value == value,
{
    Entry { key: lit(key), value }
}

impl LimitSet {
    fn deadline(&self) -> (r: (Option<i64>, Option<i64>))
        ensures
            r == deadline_parts(self@),
    {
        match self.time_value {
            Some((s, m)) => (Some(s), Some(m)),
            None => (None, None),
        }
    }

    fn set_commands_option(&mut self, o: CommandsOption, value: &[u8]) -> (r: Result<(), Vec<u8>>)
        ensures
            match commands_refusal(o, value@) {
                Some(m) => r matches Err(e) && e@ == m && final(self)@ == old(self)@,
                None => r is Ok && final(self)@ == commands_put(old(self)@, o, value@),
            },
    {
        if o == CommandsOption::Command {
            self.cmd_command = copied(value);
            return Ok(());
        }
        let n = match parse_limit_int(value) {
            Ok(n) => n,
            Err(m) => return Err(m),
        };
        if o == CommandsOption::Granularity {
            if n < 1 {
                return Err(lit("granularity must be at least 1"));
            }
            self.cmd_granularity = n;
        } else {
            if n < 0 {
                return Err(lit("command limit value must be at least 0"));
            }
            self.cmd_value = Some(n);
        }
        Ok(())
    }
}

/// Whether a configuration of `n` words is a query, a set of pairs or neither.
pub open spec fn configures(n: nat) -> bool {
    n >= 2 && n % 2 == 0
}

/// Only the limits and the noted invalidations changed.
pub open spec fn only_limits_changed(before: Interp, after: Interp) -> bool {
    after == (Interp {
        state: InterpState {
            limits: after.state.limits,
            invalidations: after.state.invalidations,
            ..before.state
        },
        ..before
    })
}

/// What `interp limit path commands` does and answers on `opts`.
pub open spec fn commands_limit_answered(
    before: Interp,
    after: Interp,
    opts: Seq<Vec<u8>>,
    chosen: Seq<Result<CommandsOption, Vec<u8>>>,
    r: Result<Reply, Vec<u8>>,
) -> bool {
    let l = before.state.limits@;
    &&& only_limits_changed(before, after)
    &&& !configures(opts.len()) ==> after == before
    &&& if opts.len() == 0 {
            r matches Ok(v) && v.lists(flattened(commands_dict(l)))
        } else if opts.len() == 1 {
            match answer(chosen[0]) {
                Ok(o) => r matches Ok(v) && v.says(commands_get(l, o)),
                Err(m) => r matches Err(e) && e@ == m,
            }
        } else if opts.len() % 2 != 0 {
            r matches Err(e) && e@ == text(
                "wrong # args: should be \"interp limit path commands ?-option value ...?\"",
            )
        } else {
            let walked = commands_walk(l, option_pairs(opts, chosen));
            &&& after.state.limits@ == walked.0
            &&& after.state.invalidations@ == before.state.invalidations@.push(
                GuardDomain::Interpreter,
            )
            &&& match walked.1 {
                Some(m) => r matches Err(e) && e@ == m,
                None => r matches Ok(v) && v.says(Seq::empty()),
            }
        }
}

/// Whether the deadline that `opts` ask for, if they are all well formed, is no
/// later than the largest second.
pub open spec fn deadline_in_range(
    l: LimitView,
    opts: Seq<Vec<u8>>,
    chosen: Seq<Result<TimeOption, Vec<u8>>>,
) -> bool {
    configures(opts.len()) ==> {
        let w = time_walk(time_start(l), option_pairs(opts, chosen));
        w.1 is Some || w.0.seconds + w.0.millis / 1000 <= i64::MAX
    }
}

/// What `interp limit path time` does and answers on `opts`.
pub open spec fn time_limit_answered(
    before: Interp,
    after: Interp,
    opts: Seq<Vec<u8>>,
    chosen: Seq<Result<TimeOption, Vec<u8>>>,
    r: Result<Reply, Vec<u8>>,
) -> bool {
    let l = before.state.limits@;
    &&& only_limits_changed(before, after)
    &&& !configures(opts.len()) ==> after == before
    &&& if opts.len() == 0 {
            r matches Ok(v) && v.lists(flattened(time_dict(l)))
        } else if opts.len() == 1 {
            match answer(chosen[0]) {
                Ok(o) => r matches Ok(v) && v.says(time_get(l, o)),
                Err(m) => r matches Err(e) && e@ == m,
            }
        } else if opts.len() % 2 != 0 {
            r matches Err(e) && e@ == text(
                "wrong # args: should be \"interp limit path time ?-option value ...?\"",
            )
        } else {
            let walked = time_walk(time_start(l), option_pairs(opts, chosen));
            &&& after.state.invalidations@ == before.state.invalidations@.push(
                GuardDomain::Interpreter,
            )
            &&& match walked.1 {
                Some(m) => r matches Err(e) && e@ == m && after.state.limits@
                    == walked.0.limits,
                None => r matches Ok(v) && v.says(Seq::empty())
                    && after.state.limits@ == time_committed(walked.0),
            }
        }
}

/// What `interp recursionlimit path ?newlimit?` does and answers.
pub open spec fn recursion_limit_answered(
    before: Interp,
    after: Interp,
    newlimit: Option<Vec<u8>>,
    r: Result<i64, Vec<u8>>,
) -> bool {
    match newlimit {
        None => r matches Ok(n) && n == before.state.recursion_limit && after == before,
        Some(b) => match integer_word(b@) {
            Some(n) => if n > 0 {
                &&& r matches Ok(v) && v == n
                &&& after.state.invalidations@ == before.state.invalidations@.push(
                    GuardDomain::Interpreter,
                )
                &&& after == (Interp {
                    state: InterpState {
                        recursion_limit: n as usize,
                        invalidations: after.state.invalidations,
                        ..before.state
                    },
                    ..before
                })
            } else {
                r matches Err(m) && m@ == text("recursion limit must be > 0") && after == before
            },
            None => r matches Err(m) && m@ == if trimmed(b@) is Some && spelled(
                trimmed(b@)->0,
            ) is Some {
                text("integer value too large to represent")
            } else {
                expected_integer(b@)
            } && after == before,
        },
    }
}

/// What `interp debug path ?-frame ?bool??` does and answers.
pub open spec fn debug_answered(
    before: Interp,
    after: Interp,
    opts: Seq<Vec<u8>>,
    truth: Result<bool, Vec<u8>>,
    r: Result<Reply, Vec<u8>>,
) -> bool {
    let named = opts.len() == 0 || names_frame_option(opts[0]@);
    let turns_on = opts.len() >= 2 && named && truth == Ok::<bool, Vec<u8>>(true);
    let on = before.state.debug_frame || turns_on;
    &&& after.state.debug_frame == on
    &&& after.state.invalidations@ == if turns_on {
        before.state.invalidations@.push(GuardDomain::Interpreter)
    } else {
        before.state.invalidations@
    }
    &&& after == (Interp {
        state: InterpState {
            debug_frame: on,
            invalidations: after.state.invalidations,
            ..before.state
        },
        ..before
    })
    &&& if !named {
        r matches Err(m) && m@ == bad_debug_option(opts[0]@)
    } else if opts.len() >= 2 && truth is Err {
        r matches Err(m) && m@ == truth->Err_0@
    } else if opts.len() == 0 {
        r matches Ok(v) && v.lists(seq![text("-frame"), flag_text(on)])
    } else {
        r matches Ok(v) && v.says(flag_text(on))
    }
}

/// The frame switch is a latch: once on, no call turns it off.
pub proof fn frame_debugging_stays_on(
    before: Interp,
    after: Interp,
    opts: Seq<Vec<u8>>,
    truth: Result<bool, Vec<u8>>,
    r: Result<Reply, Vec<u8>>,
)
    requires
        debug_answered(before, after, opts, truth, r),
        before.state.debug_frame,
    ensures
        after.state.debug_frame,
{
}

impl Interp {
    /// `interp limit path commands ?-option value ...?`. `chosen` is what the
    /// option table answers for each option word in turn.
    pub fn limit_commands(
        &mut self,
        opts: &[Vec<u8>],
        chosen: &[Result<CommandsOption, Vec<u8>>],
    ) -> (r: Result<Reply, Vec<u8>>)
        requires
            old(self).state.limits@.valid(),
            chosen@.len() == (opts@.len() + 1) / 2,
        ensures
            final(self).state.limits@.valid(),
            commands_limit_answered(*old(self), *final(self), opts@, chosen@, r),
    {
        if opts.len() == 0 {
            let l = &self.state.limits;
            let mut pairs: Vec<Entry> = Vec::new();
            pairs.push(entry("-command", copied(&l.cmd_command)));
            pairs.push(entry("-granularity", decimal_i64(l.cmd_granularity)));
            pairs.push(entry("-value", opt_int(l.cmd_value)));
            assert(entry_views(pairs@) =~= commands_dict(l@));
            return Ok(Reply::List(dict_obj(&pairs)));
        }
        if opts.len() == 1 {
            let l = &self.state.limits;
            return match &chosen[0] {
                Ok(CommandsOption::Command) => Ok(Reply::Text(copied(&l.cmd_command))),
                Ok(CommandsOption::Granularity) => Ok(
                    Reply::Text(decimal_i64(l.cmd_granularity)),
                ),
                Ok(CommandsOption::Value) => Ok(Reply::Text(opt_int(l.cmd_value))),
                Err(m) => Err(copied(m)),
            };
        }
        if opts.len() % 2 != 0 {
            return Err(
                lit("wrong # args: should be \"interp limit path commands ?-option value ...?\""),
            );
        }
        self.invalidate_guard_domain(GuardDomain::Interpreter);
        let ghost start = self.state.limits@;
        let ghost pairs = option_pairs(opts@, chosen@);
        let ghost invalidations = self.state.invalidations@;
        let ghost before = *old(self);
        proof {
            commands_walk_stays_valid(start, pairs);
            assert(pairs.skip(0) =~= pairs);
        }
        let total: usize = opts.len();
        let mut k: usize = 0;
        while k < chosen.len()
            invariant
                k <= chosen@.len(),
                total == opts@.len(),
                configures(opts@.len()),
                before == *old(self),
                invalidations == old(self).state.invalidations@.push(GuardDomain::Interpreter),
                chosen@.len() * 2 == opts@.len(),
                pairs == option_pairs(opts@, chosen@),
                pairs.len() == chosen@.len(),
                commands_walk(start, pairs) == commands_walk(
                    self.state.limits@,
                    pairs.skip(k as int),
                ),
                commands_walk(start, pairs).0.valid(),
                start == old(self).state.limits@,
                self.state.invalidations@ == invalidations,
                only_limits_changed(before, *self),
            decreases chosen@.len() - k,
        {
            assert(pairs.skip(k as int)[0] == pairs[k as int]);
            assert(pairs.skip(k as int).skip(1) =~= pairs.skip(k + 1));
            match &chosen[k] {
                Err(m) => return Err(copied(m)),
                Ok(o) => {
                    let r = self.state.limits.set_commands_option(*o, &opts[2 * k + 1]);
                    if let Err(m) = r {
                        return Err(m);
                    }
                },
            }
            k = k + 1;
        }
        let empty: Vec<u8> = Vec::new();
        assert(empty@ =~= Seq::empty());
        Ok(Reply::Text(empty))
    }

    /// `interp limit path time ?-option value ...?`. `chosen` is what the
    /// option table answers for each option word in turn. A deadline beyond the
    /// largest second is out of range.
    pub fn limit_time(
        &mut self,
        opts: &[Vec<u8>],
        chosen: &[Result<TimeOption, Vec<u8>>],
    ) -> (r: Result<Reply, Vec<u8>>)
        requires
            old(self).state.limits@.valid(),
            chosen@.len() == (opts@.len() + 1) / 2,
            deadline_in_range(old(self).state.limits@, opts@, chosen@),
        ensures
            final(self).state.limits@.valid(),
            time_limit_answered(*old(self), *final(self), opts@, chosen@, r),
    {
        if opts.len() == 0 {
            let l = &self.state.limits;
            let (secs, millis) = l.deadline();
            let mut pairs: Vec<Entry> = Vec::new();
            pairs.push(entry("-command", copied(&l.time_command)));
            pairs.push(entry("-granularity", decimal_i64(l.time_granularity)));
            pairs.push(entry("-milliseconds", opt_int(millis)));
            pairs.push(entry("-seconds", opt_int(secs)));
            assert(entry_views(pairs@) =~= time_dict(l@));
            return Ok(Reply::List(dict_obj(&pairs)));
        }
        if opts.len() == 1 {
            let l = &self.state.limits;
            let (secs, millis) = l.deadline();
            return match &chosen[0] {
                Ok(TimeOption::Command) => Ok(Reply::Text(copied(&l.time_command))),
                Ok(TimeOption::Granularity) => Ok(Reply::Text(decimal_i64(l.time_granularity))),
                Ok(TimeOption::Milliseconds) => Ok(Reply::Text(opt_int(millis))),
                Ok(TimeOption::Seconds) => Ok(Reply::Text(opt_int(secs))),
                Err(m) => Err(copied(m)),
            };
        }
        if opts.len() % 2 != 0 {
            return Err(
                lit("wrong # args: should be \"interp limit path time ?-option value ...?\""),
            );
        }
        self.invalidate_guard_domain(GuardDomain::Interpreter);
        let ghost start = time_start(old(self).state.limits@);
        let ghost pairs = option_pairs(opts@, chosen@);
        let ghost invalidations = self.state.invalidations@;
        let ghost before = *old(self);
        let (mut sec, mut ms): (i64, i64) = match self.state.limits.time_value {
            Some((s, m)) => (s, m),
            None => (0, 0),
        };
        let mut touched = self.state.limits.time_value.is_some();
        let ghost mut walk = start;
        assert(pairs.skip(0) =~= pairs);
        let total: usize = opts.len();
        let mut k: usize = 0;
        while k < chosen.len()
            invariant
                k <= chosen@.len(),
                total == opts@.len(),
                configures(opts@.len()),
                before == *old(self),
                invalidations == old(self).state.invalidations@.push(GuardDomain::Interpreter),
                chosen@.len() * 2 == opts@.len(),
                pairs == option_pairs(opts@, chosen@),
                pairs.len() == chosen@.len(),
                time_walk(start, pairs) == time_walk(walk, pairs.skip(k as int)),
                start == time_start(old(self).state.limits@),
                walk == (TimeWalk {
                    limits: self.state.limits@,
                    seconds: sec as int,
                    millis: ms as int,
                    touched,
                }),
                sec >= 0,
                ms >= 0,
                self.state.limits@.valid(),
                self.state.invalidations@ == invalidations,
                only_limits_changed(before, *self),
            decreases chosen@.len() - k,
        {
            assert(pairs.skip(k as int)[0] == pairs[k as int]);
            assert(pairs.skip(k as int).skip(1) =~= pairs.skip(k + 1));
            let value = &opts[2 * k + 1];
            let o: TimeOption = match &chosen[k] {
                Err(m) => return Err(copied(m)),
                Ok(o) => *o,
            };
            if o == TimeOption::Command {
                self.state.limits.time_command = copied(value);
            } else {
                let n: i64 = match parse_limit_int(value) {
                    Ok(n) => n,
                    Err(m) => return Err(m),
                };
                if o == TimeOption::Granularity {
                    if n < 1 {
                        return Err(lit("granularity must be at least 1"));
                    }
                    self.state.limits.time_granularity = n;
                } else if o == TimeOption::Seconds {
                    if n < 0 {
                        return Err(lit("seconds must be non-negative"));
                    }
                    sec = n;
                    touched = true;
                } else {
                    if n < 0 {
                        return Err(lit("milliseconds must be non-negative"));
                    }
                    ms = n;
                    touched = true;
                }
            }
            proof {
                walk = time_put(walk, o, value@);
            }
            k = k + 1;
        }
        if touched {
            self.state.limits.time_value = Some((sec + ms / 1000, ms % 1000));
        }
        let empty: Vec<u8> = Vec::new();
        assert(empty@ =~= Seq::empty());
        Ok(Reply::Text(empty))
    }

    /// Whether the deadline that `opts` ask for, if they are all well formed, is
    /// in range.
    pub fn deadline_fits(&self, opts: &[Vec<u8>], chosen: &[Result<TimeOption, Vec<u8>>]) -> (r:
        bool)
        requires
            self.state.limits@.valid(),
            chosen@.len() == (opts@.len() + 1) / 2,
        ensures
            r == deadline_in_range(self.state.limits@, opts@, chosen@),
    {
        if opts.len() < 2 || opts.len() % 2 != 0 {
            return true;
        }
        let ghost start = time_start(self.state.limits@);
        let ghost pairs = option_pairs(opts@, chosen@);
        let (mut sec, mut ms): (i64, i64) = match self.state.limits.time_value {
            Some((s, m)) => (s, m),
            None => (0, 0),
        };
        let ghost mut walk = start;
        assert(pairs.skip(0) =~= pairs);
        let total: usize = opts.len();
        let mut k: usize = 0;
        while k < chosen.len()
            invariant
                k <= chosen@.len(),
                total == opts@.len(),
                configures(opts@.len()),
                chosen@.len() * 2 == opts@.len(),
                pairs == option_pairs(opts@, chosen@),
                pairs.len() == chosen@.len(),
                start == time_start(self.state.limits@),
                time_walk(start, pairs) == time_walk(walk, pairs.skip(k as int)),
                walk.seconds == sec,
                walk.millis == ms,
                sec >= 0,
                ms >= 0,
            decreases chosen@.len() - k,
        {
            assert(pairs.skip(k as int)[0] == pairs[k as int]);
            assert(pairs.skip(k as int).skip(1) =~= pairs.skip(k + 1));
            let value = &opts[2 * k + 1];
            let o: TimeOption = match &chosen[k] {
                Err(_) => return true,
                Ok(o) => *o,
            };
            if o != TimeOption::Command {
                let n: i64 = match parse_limit_int(value) {
                    Ok(n) => n,
                    Err(_) => return true,
                };
                if n < 0 || (o == TimeOption::Granularity && n < 1) {
                    return true;
                }
                if o == TimeOption::Seconds {
                    sec = n;
                } else if o == TimeOption::Milliseconds {
                    ms = n;
                }
            }
            proof {
                walk = time_put(walk, o, value@);
            }
            k = k + 1;
        }
        sec <= i64::MAX - ms / 1000
    }

    /// `interp limit path limitType ?-option value ...?`. `kind` is what the
    /// table of limit types answers.
    pub fn limit_apply(&mut self, kind: &Result<LimitType, Vec<u8>>, opts: &[Vec<u8>]) -> (r: Result<
        Reply,
        Vec<u8>,
    >)
        requires
            old(self).state.limits@.valid(),
            match *kind {
                Ok(LimitType::Commands(chosen)) => chosen@.len() == (opts@.len() + 1) / 2,
                Ok(LimitType::Time(chosen)) => chosen@.len() == (opts@.len() + 1) / 2
                    && deadline_in_range(old(self).state.limits@, opts@, chosen@),
                Err(_) => true,
            },
        ensures
            final(self).state.limits@.valid(),
            match *kind {
                Ok(LimitType::Commands(chosen)) => commands_limit_answered(
                    *old(self),
                    *final(self),
                    opts@,
                    chosen@,
                    r,
                ),
                Ok(LimitType::Time(chosen)) => time_limit_answered(
                    *old(self),
                    *final(self),
                    opts@,
                    chosen@,
                    r,
                ),
                Err(m) => *final(self) == *old(self) && (r matches Err(e) && e@ == m@),
            },
    {
        match kind {
            Ok(LimitType::Commands(chosen)) => self.limit_commands(opts, chosen),
            Ok(LimitType::Time(chosen)) => self.limit_time(opts, chosen),
            Err(m) => Err(copied(m)),
        }
    }

    /// The recursion limit of this interpreter, after `newlimit` is set where
    /// one is given.
    pub fn recursion_limit_apply(&mut self, newlimit: &Option<Vec<u8>>) -> (r: Result<
        i64,
        Vec<u8>,
    >)
        requires
            old(self).state.recursion_limit <= i64::MAX,
        ensures
            recursion_limit_answered(*old(self), *final(self), *newlimit, r),
    {
        match newlimit {
            None => Ok(self.state.recursion_limit as i64),
            Some(bytes) => {
                let n: i64 = match parse_recursion_limit(bytes) {
                    Ok(n) => n,
                    Err(m) => return Err(m),
                };
                if n <= 0 {
                    return Err(lit("recursion limit must be > 0"));
                }
                self.invalidate_guard_domain(GuardDomain::Interpreter);
                self.state.recursion_limit = n as usize;
                Ok(n)
            },
        }
    }

    /// `interp debug ?-frame ?bool??`: the switch can only be turned on. `truth`
    /// is what the second word says as a boolean, or the message that it is
    /// none.
    pub fn debug_apply(&mut self, opts: &[Vec<u8>], truth: &Result<bool, Vec<u8>>) -> (r: Result<
        Reply,
        Vec<u8>,
    >)
        ensures
            debug_answered(*old(self), *final(self), opts@, *truth, r),
    {
        if opts.len() == 0 {
            let mut out: Vec<Vec<u8>> = Vec::new();
            out.push(lit("-frame"));
            out.push(flag(self.state.debug_frame));
            assert(views(out@) =~= seq![text("-frame"), flag_text(self.state.debug_frame)]);
            return Ok(Reply::List(out));
        }
        if let Err(m) = check_debug_opt(&opts[0]) {
            return Err(m);
        }
        if opts.len() >= 2 {
            match truth {
                Err(m) => return Err(copied(m)),
                Ok(true) => {
                    self.invalidate_guard_domain(GuardDomain::Interpreter);
                    self.state.debug_frame = true;
                },
                Ok(false) => {},
            }
        }
        Ok(Reply::Text(flag(self.state.debug_frame)))
    }

    /// Whether the deadline has passed at `now_millis` of the wall clock.
    pub fn time_limit_exceeded(&self, now_millis: i128) -> (r: bool)
        ensures
            r == deadline_passed(self.state.limits@, now_millis as int),
    {
        match self.state.limits.time_value {
            Some((secs, millis)) => {
                let deadline: i128 = secs as i128 * 1000 + millis as i128;
                now_millis >= deadline
            },
            None => false,
        }
    }

    /// Whether there is a deadline.
    pub fn has_time_limit(&self) -> (r: bool)
        ensures
            r == self.state.limits@.time_value is Some,
    {
        self.state.limits.time_value.is_some()
    }

    /// Counts one more turn of a loop, and raises an error where the deadline
    /// has passed: only one turn in 4096 looks at the clock.
    pub fn limit_check_tick(&mut self, now_millis: i128) -> (r: Option<Code>)
        ensures
            tick_taken(*old(self), *final(self), now_millis as int, r),
    {
        if !self.has_time_limit() {
            return None;
        }
        let tick: u32 = if self.state.limit_tick == u32::MAX {
            0
        } else {
            self.state.limit_tick + 1
        };
        self.state.limit_tick = tick;
        if tick % 4096 == 0 && self.time_limit_exceeded(now_millis) {
            return Some(self.error("time limit exceeded".as_bytes()));
        }
        None
    }
}

/// Whether the deadline has passed at `now` milliseconds.
pub open spec fn deadline_passed(l: LimitView, now: int) -> bool {
    l.time_value matches Some(t) && now >= t.0 * 1000 + t.1
}

/// A switch as a word.
pub open spec fn flag_text(on: bool) -> Seq<u8> {
    if on {
        text("1")
    } else {
        text("0")
    }
}

/// A switch as a word.
pub fn flag(on: bool) -> (r: Vec<u8>)
    ensures
        r@ == flag_text(on),
{
    if on {
        lit("1")
    } else {
        lit("0")
    }
}

/// Whether `word` names the one option of `interp debug`, in full or cut short.
pub open spec fn names_frame_option(word: Seq<u8>) -> bool {
    word.len() > 0 && starts_with(text("-frame"), word)
}

/// The message for a word that does not.
pub open spec fn bad_debug_option(word: Seq<u8>) -> Seq<u8> {
    text("bad debug option \"") + word + text("\": must be -frame")
}

/// Accepts the option word of `interp debug`. The empty word names nothing.
pub fn check_debug_opt(word: &[u8]) -> (r: Result<(), Vec<u8>>)
    ensures
        r is Ok == names_frame_option(word@),
        r matches Err(m) ==> m@ == bad_debug_option(word@),
{
    if word.len() > 0 && has_prefix("-frame".as_bytes(), word) {
        Ok(())
    } else {
        Err(framed("bad debug option \"", word, "\": must be -frame"))
    }
}

/// An option of the `commands` limit that was set is what a query of it then
/// answers, an integer in its decimal spelling; the other options answer what
/// they answered before.
pub proof fn a_commands_option_answers_what_was_set(
    before: Interp,
    between: Interp,
    after: Interp,
    name: Vec<u8>,
    value: Vec<u8>,
    o: CommandsOption,
    asked: Vec<u8>,
    q: CommandsOption,
    done: Result<Reply, Vec<u8>>,
    r: Result<Reply, Vec<u8>>,
)
    requires
        commands_limit_answered(before, between, seq![name, value], seq![Ok(o)], done),
        done is Ok,
        commands_limit_answered(between, after, seq![asked], seq![Ok(q)], r),
    ensures
        r is Ok,
        after == between,
        o == q && o is Command ==> r->Ok_0.says(value@),
        o == q && !(o is Command) ==> integer_word(value@) is Some && r->Ok_0.says(
            decimal(integer_word(value@)->0),
        ),
        o != q && q is Command ==> r->Ok_0.says(before.state.limits@.cmd_command),
        o != q && q is Granularity ==> r->Ok_0.says(
            decimal(before.state.limits@.cmd_granularity as int),
        ),
        o != q && q is Value && before.state.limits@.cmd_value is Some ==> r->Ok_0.says(
            decimal(before.state.limits@.cmd_value->0 as int),
        ),
        o != q && q is Value && before.state.limits@.cmd_value is None ==> r->Ok_0.says(
            Seq::empty(),
        ),
{
    reveal_with_fuel(commands_walk, 2);
    let chosen = seq![Ok::<CommandsOption, Vec<u8>>(o)];
    let pairs = option_pairs(seq![name, value], chosen);
    assert(pairs.len() == 1);
    assert(chosen[0] == Ok::<CommandsOption, Vec<u8>>(o));
    assert(pairs[0] == (answer(chosen[0]), value@));
    assert(pairs.skip(1).len() == 0);
    integers_fit(value@);
}

/// An integer that was read is one that 64 bits hold.
proof fn integers_fit(v: Seq<u8>)
    ensures
        integer_word(v) is Some ==> i64::MIN <= integer_word(v)->0 <= i64::MAX,
{
}

/// The pairs of a configuration are taken one after another: those of `b` where
/// those of `a` have left off, and not at all if one of `a` was refused.
pub proof fn commands_pairs_are_taken_in_order(
    l: LimitView,
    a: Seq<(Result<CommandsOption, Seq<u8>>, Seq<u8>)>,
    b: Seq<(Result<CommandsOption, Seq<u8>>, Seq<u8>)>,
)
    ensures
        commands_walk(l, a).1 is None ==> commands_walk(l, a + b) == commands_walk(
            commands_walk(l, a).0,
            b,
        ),
        commands_walk(l, a).1 is Some ==> commands_walk(l, a + b) == commands_walk(l, a),
    decreases a.len(),
{
    if a.len() == 0 {
        assert(a + b =~= b);
    } else {
        assert((a + b).skip(1) =~= a.skip(1) + b);
        if let Ok(o) = a[0].0 {
            commands_pairs_are_taken_in_order(commands_put(l, o, a[0].1), a.skip(1), b);
        }
    }
}

/// The pairs of a `time` configuration are taken one after another too.
pub proof fn time_pairs_are_taken_in_order(
    w: TimeWalk,
    a: Seq<(Result<TimeOption, Seq<u8>>, Seq<u8>)>,
    b: Seq<(Result<TimeOption, Seq<u8>>, Seq<u8>)>,
)
    ensures
        time_walk(w, a).1 is None ==> time_walk(w, a + b) == time_walk(time_walk(w, a).0, b),
        time_walk(w, a).1 is Some ==> time_walk(w, a + b) == time_walk(w, a),
    decreases a.len(),
{
    if a.len() == 0 {
        assert(a + b =~= b);
    } else {
        assert((a + b).skip(1) =~= a.skip(1) + b);
        if let Ok(o) = a[0].0 {
            time_pairs_are_taken_in_order(time_put(w, o, a[0].1), a.skip(1), b);
        }
    }
}

/// When the value of an option is refused: one that is to be a number where it
/// is none, a granularity below one, and any other number below zero. A script
/// is never refused.
pub proof fn a_limit_is_refused_below_its_least(v: Seq<u8>)
    ensures
        commands_refusal(CommandsOption::Command, v) is None,
        time_refusal(TimeOption::Command, v) is None,
        commands_refusal(CommandsOption::Granularity, v) is None <==> integer_word(v) is Some
            && integer_word(v)->0 >= 1,
        time_refusal(TimeOption::Granularity, v) is None <==> integer_word(v) is Some
            && integer_word(v)->0 >= 1,
        commands_refusal(CommandsOption::Value, v) is None <==> integer_word(v) is Some
            && integer_word(v)->0 >= 0,
        time_refusal(TimeOption::Seconds, v) is None <==> integer_word(v) is Some
            && integer_word(v)->0 >= 0,
        time_refusal(TimeOption::Milliseconds, v) is None <==> integer_word(v) is Some
            && integer_word(v)->0 >= 0,
        integer_word(v) is None ==> commands_refusal(CommandsOption::Value, v) == Some(
            text("expected integer but got \"") + v + text("\""),
        ),
{
}

/// A deadline is the seconds and milliseconds that were asked for: as many
/// milliseconds in all, of which fewer than a thousand are left over. It has
/// passed from that moment on.
pub proof fn a_deadline_is_the_time_asked_for(w: TimeWalk, now: int)
    requires
        w.touched,
        0 <= w.seconds,
        0 <= w.millis,
        w.seconds + w.millis / 1000 <= i64::MAX,
    ensures
        time_committed(w).time_value is Some,
        deadline_passed(time_committed(w), now) <==> now >= w.seconds * 1000 + w.millis,
        time_committed(w).time_value matches Some(t) && 0 <= t.1 < 1000,
        time_committed(w).time_command == w.limits.time_command,
        time_committed(w).time_granularity == w.limits.time_granularity,
        time_committed(w).cmd_value == w.limits.cmd_value,
{
    normalised_deadline(w.seconds, w.millis);
}

/// What one option of the `time` limit sets, and that it leaves the others: an
/// integer is the number it spells.
pub proof fn a_time_option_sets_its_own(w: TimeWalk, v: Seq<u8>)
    requires
        integer_word(v) is Some,
    ensures
        time_put(w, TimeOption::Seconds, v).seconds == integer_word(v)->0,
        time_put(w, TimeOption::Seconds, v).millis == w.millis,
        time_put(w, TimeOption::Seconds, v).touched,
        time_put(w, TimeOption::Milliseconds, v).millis == integer_word(v)->0,
        time_put(w, TimeOption::Milliseconds, v).seconds == w.seconds,
        time_put(w, TimeOption::Milliseconds, v).touched,
        time_put(w, TimeOption::Granularity, v).limits.time_granularity == integer_word(v)->0,
        time_put(w, TimeOption::Granularity, v).limits.time_command == w.limits.time_command,
        time_put(w, TimeOption::Granularity, v).touched == w.touched,
        time_put(w, TimeOption::Command, v).limits.time_command == v,
        time_put(w, TimeOption::Command, v).limits.time_granularity == w.limits.time_granularity,
        time_put(w, TimeOption::Command, v).seconds == w.seconds,
{
    integers_fit(v);
}

/// A `time` configuration starts from the deadline that is set, and from none
/// where none is: what is not touched stays as it was.
pub proof fn an_untouched_deadline_stays(l: LimitView)
    ensures
        l.time_value matches Some(t) ==> time_start(l).seconds == t.0 && time_start(l).millis
            == t.1,
        l.time_value is None ==> !time_start(l).touched && time_start(l).seconds == 0
            && time_start(l).millis == 0,
        time_start(l).limits == l,
        l.valid() ==> time_committed(time_start(l)) == l,
{
    if let Some(t) = l.time_value {
        if l.valid() {
            assert(time_committed(time_start(l)).time_value == Some((t.0, t.1)));
        }
    }
}

/// The dictionaries hold under each option what a query of that option answers.
pub proof fn a_dictionary_holds_what_queries_answer(l: LimitView)
    ensures
        commands_dict(l).contains((text("-command"), commands_get(l, CommandsOption::Command))),
        commands_dict(l).contains(
            (text("-granularity"), commands_get(l, CommandsOption::Granularity)),
        ),
        commands_dict(l).contains((text("-value"), commands_get(l, CommandsOption::Value))),
        commands_dict(l).len() == 3,
        time_dict(l).contains((text("-command"), time_get(l, TimeOption::Command))),
        time_dict(l).contains((text("-granularity"), time_get(l, TimeOption::Granularity))),
        time_dict(l).contains((text("-milliseconds"), time_get(l, TimeOption::Milliseconds))),
        time_dict(l).contains((text("-seconds"), time_get(l, TimeOption::Seconds))),
        time_dict(l).len() == 4,
        time_get(l, TimeOption::Command) == l.time_command,
        time_get(l, TimeOption::Granularity) == decimal(l.time_granularity as int),
        l.time_value matches Some(t) ==> time_get(l, TimeOption::Seconds) == decimal(t.0 as int)
            && time_get(l, TimeOption::Milliseconds) == decimal(t.1 as int),
        l.time_value is None ==> time_get(l, TimeOption::Seconds) == Seq::<u8>::empty()
            && time_get(l, TimeOption::Milliseconds) == Seq::<u8>::empty(),
{
    let c = commands_dict(l);
    assert(c[0] == (text("-command"), commands_get(l, CommandsOption::Command)));
    assert(c[1] == (text("-granularity"), commands_get(l, CommandsOption::Granularity)));
    assert(c[2] == (text("-value"), commands_get(l, CommandsOption::Value)));
    let t = time_dict(l);
    assert(t[0] == (text("-command"), time_get(l, TimeOption::Command)));
    assert(t[1] == (text("-granularity"), time_get(l, TimeOption::Granularity)));
    assert(t[2] == (text("-milliseconds"), time_get(l, TimeOption::Milliseconds)));
    assert(t[3] == (text("-seconds"), time_get(l, TimeOption::Seconds)));
}

/// A dictionary is listed key by key, each key before its value.
pub proof fn a_key_comes_before_its_value(
    a: Seq<(Seq<u8>, Seq<u8>)>,
    b: Seq<(Seq<u8>, Seq<u8>)>,
    key: Seq<u8>,
    value: Seq<u8>,
)
    ensures
        flattened(a + b) == flattened(a) + flattened(b),
        flattened(seq![(key, value)]) == seq![key, value],
    decreases b.len(),
{
    reveal_with_fuel(flattened, 2);
    let one = seq![(key, value)];
    assert(one.drop_last() =~= Seq::empty());
    assert(flattened(one) =~= seq![key, value]);
    if b.len() == 0 {
        assert(a + b =~= a);
        assert(flattened(a) + flattened(b) =~= flattened(a));
    } else {
        assert((a + b).drop_last() =~= a + b.drop_last());
        a_key_comes_before_its_value(a, b.drop_last(), key, value);
        assert(flattened(a + b) =~= flattened(a) + flattened(b));
    }
}

/// A recursion limit that was accepted is the one in force and the one that is
/// answered from then on. One that is not positive is refused, and the limit
/// stays.
pub proof fn a_recursion_limit_answers_what_was_set(
    before: Interp,
    between: Interp,
    after: Interp,
    value: Vec<u8>,
    done: Result<i64, Vec<u8>>,
    r: Result<i64, Vec<u8>>,
)
    requires
        recursion_limit_answered(before, between, Some(value), done),
        recursion_limit_answered(between, after, None, r),
        before.state.recursion_limit <= i64::MAX,
        integer_word(value@) matches Some(n) ==> n <= usize::MAX,
    ensures
        r is Ok,
        after == between,
        done is Ok <==> integer_word(value@) is Some && integer_word(value@)->0 > 0,
        done is Ok ==> r->Ok_0 == integer_word(value@)->0 && after.state.recursion_limit
            == integer_word(value@)->0,
        done is Err ==> r->Ok_0 == before.state.recursion_limit && between == before,
{
    integers_fit(value@);
}

/// Frame debugging is turned on by a true value behind its option, and by
/// nothing else; it answers whether it is on.
pub proof fn frame_debugging_is_turned_on_by_truth(
    before: Interp,
    after: Interp,
    opts: Seq<Vec<u8>>,
    truth: Result<bool, Vec<u8>>,
    r: Result<Reply, Vec<u8>>,
)
    requires
        debug_answered(before, after, opts, truth, r),
        !before.state.debug_frame,
    ensures
        after.state.debug_frame <==> opts.len() >= 2 && opts[0]@.len() > 0 && starts_with(
            text("-frame"),
            opts[0]@,
        ) && truth == Ok::<bool, Vec<u8>>(true),
        opts.len() == 1 && r is Ok ==> r->Ok_0.says(text("0")),
        after.state.debug_frame ==> r is Ok && r->Ok_0.says(text("1")),
        opts.len() == 0 ==> r is Ok && r->Ok_0.lists(seq![text("-frame"), text("0")]),
{
}

/// The number of the tick that follows `n`.
pub open spec fn next_tick(n: u32) -> u32 {
    if n == u32::MAX {
        0
    } else {
        (n + 1) as u32
    }
}

/// A tick at `now` milliseconds: every 4096th looks at the clock.
pub open spec fn tick_taken(before: Interp, after: Interp, now: int, r: Option<Code>) -> bool {
    let tick = next_tick(before.state.limit_tick);
    let ticked = Interp { state: InterpState { limit_tick: tick, ..before.state }, ..before };
    if before.state.limits@.time_value is None {
        r is None && after == before
    } else if tick % 4096 == 0 && deadline_passed(before.state.limits@, now) {
        r == Some(Code::Error) && raised(ticked, after, text("time limit exceeded"))
    } else {
        r is None && after == ticked
    }
}

/// A script is stopped only by a deadline that is set and has passed, and with
/// the message that says so. Until then a tick changes nothing but its count.
pub proof fn only_a_passed_deadline_stops_a_script(
    before: Interp,
    after: Interp,
    now: int,
    r: Option<Code>,
)
    requires
        tick_taken(before, after, now, r),
    ensures
        r is Some ==> r == Some(Code::Error) && after.state.result@ == text(
            "time limit exceeded",
        ),
        r is Some ==> (before.state.limits@.time_value matches Some(t) && now >= t.0 * 1000 + t.1),
        r is None ==> after.state.result == before.state.result && after.state.limits
            == before.state.limits,
        before.state.limits@.time_value is None ==> r is None && after == before,
        before.state.limit_tick < u32::MAX && (before.state.limit_tick + 1) % 4096 == 0
            && deadline_passed(before.state.limits@, now) ==> r is Some,
        before.state.limits@.time_value is Some && before.state.limit_tick < u32::MAX ==>
            after.state.limit_tick == before.state.limit_tick + 1,
{
}

} // verus!
