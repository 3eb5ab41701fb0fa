//! Background errors: their queue, and the calls that report them.

use vstd::prelude::*;

use crate::bytes::{copied, copied_words, views};
use crate::state::{BgError, Interp, InterpState};

verus! {

/// A background error as its two texts.
pub struct BgErrorView {
    pub message: Seq<u8>,
    pub options: Seq<u8>,
}

impl View for BgError {
    type V = BgErrorView;

    open spec fn view(&self) -> BgErrorView {
        BgErrorView { message: self.message@, options: self.options@ }
    }
}

/// The errors of a queue, oldest first.
pub open spec fn bg_views(es: Seq<BgError>) -> Seq<BgErrorView> {
    Seq::new(es.len(), |i: int| es[i]@)
}

/// The call that reports an error: the handler's words, then the message and the
/// options.
pub open spec fn bg_call(handler: Seq<Seq<u8>>, e: BgErrorView) -> Seq<Seq<u8>> {
    handler + seq![e.message, e.options]
}

/// A report of the background errors that is under way: the errors taken from
/// the queue, and the result that the call being made may overwrite.
pub struct BgRun {
    batch: Vec<BgError>,
    next: usize,
    saved: Option<Vec<u8>>,
}

impl BgRun {
    pub closed spec fn valid(self) -> bool {
        self.next <= self.batch@.len()
    }

    /// The errors that were taken and are not reported yet.
    pub closed spec fn taken(self) -> Seq<BgErrorView> {
        bg_views(self.batch@).skip(self.next as int)
    }

    /// The result to come back once the call is over.
    pub closed spec fn saved(self) -> Option<Seq<u8>> {
        crate::bytes::opt_view(self.saved)
    }
}

/// The errors that a report still has to go through: those it has taken, then
/// those that came to the queue since.
pub open spec fn unreported(i: InterpState, run: BgRun) -> Seq<BgErrorView> {
    run.taken() + bg_views(i.bg_queue@)
}

/// The result as a step of a report finds it: the last call is over.
pub open spec fn result_back(i: InterpState, run: BgRun) -> Seq<u8> {
    match run.saved() {
        Some(r) => r,
        None => i.result@,
    }
}

impl Interp {
    /// Queues a background error.
    pub fn report_bg_error(&mut self, msg: &[u8], options: &[u8])
        ensures
            bg_views(final(self).state.bg_queue@) == bg_views(old(self).state.bg_queue@).push(
                (BgErrorView { message: msg@, options: options@ }),
            ),
            *final(self) == (Interp {
                state: InterpState { bg_queue: final(self).state.bg_queue, ..old(self).state },
                ..*old(self)
            }),
    {
        self.state.bg_queue.push(BgError { message: copied(msg), options: copied(options) });
        assert(bg_views(self.state.bg_queue@) =~= bg_views(old(self).state.bg_queue@).push(
            (BgErrorView { message: msg@, options: options@ }),
        ));
    }

    /// Begins a report of the background errors: it takes all that are queued, and
    /// leaves the queue empty for those that come while it is under way.
    pub fn process_bg_errors(&mut self) -> (run: BgRun)
        ensures
            run.valid(),
            run.saved() is None,
            run.taken() == bg_views(old(self).state.bg_queue@),
            final(self).state.bg_queue@.len() == 0,
            unreported(final(self).state, run) == bg_views(old(self).state.bg_queue@),
            *final(self) == (Interp {
                state: InterpState { bg_queue: final(self).state.bg_queue, ..old(self).state },
                ..*old(self)
            }),
    {
        let mut batch: Vec<BgError> = Vec::new();
        std::mem::swap(&mut batch, &mut self.state.bg_queue);
        let run = BgRun { batch, next: 0, saved: None };
        assert(run.taken() =~= bg_views(old(self).state.bg_queue@));
        assert(unreported(self.state, run) =~= bg_views(old(self).state.bg_queue@));
        run
    }

    /// The next call of a report, after the one before it is over. Errors come
    /// in the order they were queued in, those that a call queues last: they are
    /// taken from the queue once all that were taken before are reported. Without
    /// a handler they are dropped. `handler` holds the handler as a list, which
    /// is empty where it is none. `None` where nothing is left to report.
    pub fn next_bg_call(&mut self, run: &mut BgRun, handler: &[Vec<u8>]) -> (r: Option<Vec<Vec<u8>>>)
        requires
            old(run).valid(),
        ensures
            final(run).valid(),
            final(self).state.result@ == result_back(old(self).state, *old(run)),
            bg_stepped(
                old(self).state,
                final(self).state,
                *old(run),
                *final(run),
                views(handler@),
                r,
            ),
            if old(run).taken().len() == 0 || old(self).state.bgerror@.len() == 0 {
                final(self).state.bg_queue@.len() == 0
            } else {
                final(self).state.bg_queue == old(self).state.bg_queue
            },
            *final(self) == (Interp {
                state: InterpState {
                    result: final(self).state.result,
                    bg_queue: final(self).state.bg_queue,
                    ..old(self).state
                },
                ..*old(self)
            }),
    {
        let ghost left = unreported(self.state, *run);
        let mut saved: Option<Vec<u8>> = None;
        std::mem::swap(&mut saved, &mut run.saved);
        if let Some(result) = saved {
            self.state.result = result;
        }
        if run.next == run.batch.len() || self.state.bgerror.len() == 0 {
            let mut batch: Vec<BgError> = Vec::new();
            std::mem::swap(&mut batch, &mut self.state.bg_queue);
            run.batch = batch;
            run.next = 0;
            assert(run.taken() =~= bg_views(old(self).state.bg_queue@));
            assert(bg_views(self.state.bg_queue@) =~= Seq::empty());
        }
        if self.state.bgerror.len() == 0 {
            run.batch = Vec::new();
            assert(unreported(self.state, *run) =~= Seq::empty());
            return None;
        }
        assert(unreported(self.state, *run) =~= left);
        if run.next == run.batch.len() {
            assert(unreported(self.state, *run) =~= Seq::empty());
            return None;
        }
        let e = &run.batch[run.next];
        assert(left[0] == e@);
        let mut argv = copied_words(handler);
        argv.push(copied(&e.message));
        argv.push(copied(&e.options));
        assert(views(argv@) =~= bg_call(views(handler@), left[0]));
        run.next = run.next + 1;
        run.saved = Some(copied(&self.state.result));
        assert(unreported(self.state, *run) =~= left.skip(1));
        Some(argv)
    }
}

/// An error that is queued while a report is under way is reported after all
/// that were there before it.
pub proof fn reported_in_order(before: InterpState, after: InterpState, run: BgRun, e: BgErrorView)
    requires
        bg_views(after.bg_queue@) == bg_views(before.bg_queue@).push(e),
    ensures
        unreported(after, run) == unreported(before, run).push(e),
{
    assert(unreported(after, run) =~= unreported(before, run).push(e));
}

/// A report leaves the result alone: whatever a call made of it, the next step
/// brings back the one before the call.
pub proof fn reports_keep_the_result(before: InterpState, ran: InterpState, run: BgRun)
    requires
        run.saved() == Some(before.result@),
    ensures
        result_back(ran, run) == before.result@,
{
}

/// The call that reports an error is the handler's words, then the message, then
/// the options, and nothing else.
pub proof fn a_report_tells_the_message_and_the_options(handler: Seq<Seq<u8>>, e: BgErrorView)
    ensures
        bg_call(handler, e).len() == handler.len() + 2,
        bg_call(handler, e).take(handler.len() as int) == handler,
        bg_call(handler, e)[handler.len() as int] == e.message,
        bg_call(handler, e)[handler.len() as int + 1] == e.options,
{
    assert(bg_call(handler, e).take(handler.len() as int) =~= handler);
}

/// One step of a report: `r` is the call that it makes.
pub open spec fn bg_stepped(
    before: InterpState,
    after: InterpState,
    run: BgRun,
    then: BgRun,
    handler: Seq<Seq<u8>>,
    r: Option<Vec<Vec<u8>>>,
) -> bool {
    let left = unreported(before, run);
    if before.bgerror@.len() == 0 || left.len() == 0 {
        &&& r is None
        &&& unreported(after, then).len() == 0
        &&& then.saved() is None
    } else {
        &&& r matches Some(argv) && views(argv@) == bg_call(handler, left[0])
        &&& unreported(after, then) == left.skip(1)
        &&& then.saved() == Some(after.result@)
    }
}

/// Every background error is reported once, the oldest first, as long as there
/// is a handler: each step calls it with the next error and leaves the others in
/// their order. Without a handler the errors are dropped.
pub proof fn every_error_is_reported_once(
    before: InterpState,
    after: InterpState,
    run: BgRun,
    then: BgRun,
    handler: Seq<Seq<u8>>,
    r: Option<Vec<Vec<u8>>>,
)
    requires
        bg_stepped(before, after, run, then, handler, r),
    ensures
        r is Some <==> before.bgerror@.len() > 0 && unreported(before, run).len() > 0,
        r matches Some(argv) ==> {
            let e = unreported(before, run)[0];
            &&& views(argv@) == handler + seq![e.message, e.options]
            &&& seq![e] + unreported(after, then) == unreported(before, run)
        },
        r is None ==> unreported(after, then).len() == 0 && then.saved() is None,
        r is Some ==> then.saved() == Some(after.result@),
{
    if r is Some {
        let left = unreported(before, run);
        assert(seq![left[0]] + left.skip(1) =~= left);
    }
}

} // verus!
