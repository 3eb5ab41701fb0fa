//! Ensembles: from a call to the command it stands for.

use vstd::prelude::*;

use crate::bytes::{append, append_text, copied, copied_words, framed, lit, same, text, views};
use crate::code::Code;
use crate::errors::{
    command_entry, command_logged, only_trace_changed, raised, raised_with, trace_text,
    ExceptionView,
};
use crate::lines::line_at;
use crate::number::{decimal, decimal_i64};
use crate::order::{ascending, sorted_words};
use crate::state::{EnsembleRewrite, Interp, InterpState, NsId, GLOBAL};
use crate::words::{first_word, spaced};

verus! {

/// One entry of an ensemble's `-map`.
#[derive(Debug)]
pub struct MapEntry {
    pub key: Vec<u8>,
    pub prefix: Vec<Vec<u8>>,
}

/// The configuration of an ensemble.
#[derive(Debug)]
pub struct EnsembleConfig {
    pub ns: NsId,
    pub subcommands: Option<Vec<Vec<u8>>>,
    pub map: Option<Vec<MapEntry>>,
    /// Whether unambiguous prefixes name a subcommand.
    pub prefixes: bool,
    /// The parameters that precede the subcommand.
    pub parameters: Vec<Vec<u8>>,
    /// The command prefix of the `-unknown` handler.
    pub unknown: Vec<Vec<u8>>,
}

/// Where the parts of a call of an ensemble stand among its words.
#[derive(Debug, Clone, Copy, PartialEq, Eq, Structural)]
pub struct Layout {
    /// The parameters are the words `parameters_from..parameters_to`.
    pub parameters_from: usize,
    pub parameters_to: usize,
    pub subcommand: usize,
    /// The arguments begin here.
    pub arguments: usize,
}

impl Layout {
    /// The parts lie within a call of `n` words.
    pub open spec fn fits(self, n: int) -> bool {
        &&& self.parameters_from <= self.parameters_to <= n
        &&& self.subcommand < n
        &&& self.arguments <= n
    }
}

/// The keys of a map.
pub open spec fn map_keys(m: Seq<MapEntry>) -> Seq<Seq<u8>> {
    Seq::new(m.len(), |i: int| m[i].key@)
}

/// The words that may be subcommands: those that are listed, else the keys of
/// the map, else the exported commands of the namespace.
pub open spec fn candidate_words(cfg: EnsembleConfig, exported: Seq<Seq<u8>>) -> Seq<Seq<u8>> {
    match (cfg.subcommands, cfg.map) {
        (Some(list), _) => views(list@),
        (None, Some(m)) => map_keys(m@),
        (None, None) => exported,
    }
}

/// The subcommands of an ensemble, in order, each once.
pub fn ensemble_subcommands(cfg: &EnsembleConfig, exported: &[Vec<u8>]) -> (r: Vec<Vec<u8>>)
    ensures
        ascending(views(r@)),
        forall|w: Seq<u8>| #[trigger]
            views(r@).contains(w) <==> candidate_words(*cfg, views(exported@)).contains(w),
{
    match (&cfg.subcommands, &cfg.map) {
        (Some(list), _) => sorted_words(list),
        (None, Some(m)) => {
            let mut keys: Vec<Vec<u8>> = Vec::new();
            let mut i: usize = 0;
            while i < m.len()
                invariant
                    i <= m@.len(),
                    keys@.len() == i,
                    forall|j: int| 0 <= j < i ==> #[trigger] keys@[j]@ == m@[j].key@,
                decreases m@.len() - i,
            {
                keys.push(copied(&m[i].key));
                i = i + 1;
            }
            assert(views(keys@) =~= map_keys(m@));
            sorted_words(&keys)
        },
        (None, None) => sorted_words(exported),
    }
}

/// The first entry of a map for `key`, if it has one.
pub open spec fn mapped(m: Seq<MapEntry>, key: Seq<u8>) -> Option<Seq<Seq<u8>>>
    decreases m.len(),
{
    if m.len() == 0 {
        None
    } else if m[0].key@ == key {
        Some(views(m[0].prefix@))
    } else {
        mapped(m.skip(1), key)
    }
}

/// The entry of an ensemble's map for `sub`.
pub open spec fn map_entry(cfg: EnsembleConfig, sub: Seq<u8>) -> Option<Seq<Seq<u8>>> {
    match cfg.map {
        Some(m) => mapped(m@, sub),
        None => None,
    }
}

/// The command that a subcommand without a map entry stands for.
pub open spec fn default_target(ns: NsId, ns_name: Seq<u8>, sub: Seq<u8>) -> Seq<u8> {
    if ns == GLOBAL {
        ns_name + sub
    } else {
        ns_name + text("::") + sub
    }
}

/// The command prefix that a subcommand stands for.
pub open spec fn target_prefix(cfg: EnsembleConfig, ns_name: Seq<u8>, sub: Seq<u8>) -> Seq<
    Seq<u8>,
> {
    match map_entry(cfg, sub) {
        Some(p) => p,
        None => seq![default_target(cfg.ns, ns_name, sub)],
    }
}

fn find_mapped(cfg: &EnsembleConfig, sub: &[u8]) -> (r: Option<Vec<Vec<u8>>>)
    ensures
        match r {
            Some(p) => map_entry(*cfg, sub@) == Some(views(p@)),
            None => map_entry(*cfg, sub@) is None,
        },
{
    match &cfg.map {
        None => None,
        Some(m) => {
            let mut i: usize = 0;
            assert(m@.skip(0) =~= m@);
            while i < m.len()
                invariant
                    i <= m@.len(),
                    map_entry(*cfg, sub@) == mapped(m@, sub@),
                    mapped(m@, sub@) == mapped(m@.skip(i as int), sub@),
                decreases m@.len() - i,
            {
                assert(m@.skip(i as int)[0] == m@[i as int]);
                if same(&m[i].key, sub) {
                    return Some(copied_words(&m[i].prefix));
                }
                assert(m@.skip(i as int).skip(1) =~= m@.skip(i + 1));
                i = i + 1;
            }
            None
        },
    }
}

/// What a call of an ensemble comes to.
pub enum EnsembleStep {
    /// An error was raised.
    Failed,
    /// Dispatch to the command `prefix`. `source` are the words of the call,
    /// the subcommand spelled out; `default_name` is the subcommand where the
    /// target is the one it stands for without a map.
    Target { prefix: Vec<Vec<u8>>, source: Vec<Vec<u8>>, default_name: Option<Vec<u8>> },
    /// Ask the `-unknown` handler.
    AskUnknown,
    /// Parse the call again, with the configuration as it is now: the handler
    /// made the subcommand.
    Reparse,
}

/// Whether `step` dispatches the call `argv` of the subcommand `sub`.
pub open spec fn target_chosen(
    step: EnsembleStep,
    cfg: EnsembleConfig,
    argv: Seq<Seq<u8>>,
    l: Layout,
    ns_name: Seq<u8>,
    sub: Seq<u8>,
) -> bool {
    &&& step matches EnsembleStep::Target { prefix, source, default_name }
    &&& views(prefix@) == target_prefix(cfg, ns_name, sub)
    &&& views(source@) == argv.update(l.subcommand as int, sub)
    &&& crate::bytes::opt_view(default_name) == if map_entry(cfg, sub) is None {
        Some(sub)
    } else {
        None
    }
}

/// The message for too few words: `elements` are the parameters as list
/// elements.
pub open spec fn ensemble_usage(argv: Seq<Vec<u8>>, elements: Seq<Seq<u8>>) -> Seq<u8> {
    text("wrong # args: should be \"") + first_word(argv) + prefixed_all(elements) + text(
        " subcommand ?arg ...?\"",
    )
}

/// `ws` with a space before each.
pub open spec fn prefixed_all(ws: Seq<Seq<u8>>) -> Seq<u8>
    decreases ws.len(),
{
    if ws.len() == 0 {
        Seq::empty()
    } else {
        prefixed_all(ws.drop_last()) + text(" ") + ws.last()
    }
}

impl Interp {
    /// Raises the error for a call of an ensemble with too few words.
    pub fn ensemble_wrong_args(&mut self, argv: &[Vec<u8>], elements: &[Vec<u8>]) -> (c: Code)
        ensures
            c == Code::Error,
            raised(*old(self), *final(self), ensemble_usage(argv@, views(elements@))),
    {
        let mut m = lit("wrong # args: should be \"");
        append(&mut m, &crate::words::invoked_word(argv));
        let ghost start = m@;
        let ghost all = views(elements@);
        let mut i: usize = 0;
        assert(m@ =~= start + prefixed_all(all.take(0)));
        while i < elements.len()
            invariant
                i <= elements@.len(),
                all == views(elements@),
                m@ == start + prefixed_all(all.take(i as int)),
            decreases elements@.len() - i,
        {
            append_text(&mut m, " ");
            append(&mut m, &elements[i]);
            assert(all.take(i + 1).drop_last() =~= all.take(i as int));
            assert(m@ =~= start + prefixed_all(all.take(i + 1)));
            i = i + 1;
        }
        assert(all.take(i as int) =~= all);
        append_text(&mut m, " subcommand ?arg ...?\"");
        self.error(&m)
    }

    /// Takes a call of an ensemble one step on. `layout` is where its parts
    /// stand, `None` for too few words; `subs` are the subcommands and `found`
    /// the one that the call names; `reparsed` says that the `-unknown` handler
    /// was asked before. `elements` are the parameters and `sub_element` the
    /// subcommand word as list elements; `miss` is the message for a word that
    /// names no subcommand.
    pub fn dispatch_ensemble(
        &mut self,
        cfg: &EnsembleConfig,
        argv: &[Vec<u8>],
        layout: &Option<Layout>,
        subs: &[Vec<u8>],
        found: Option<usize>,
        ns_name: &[u8],
        reparsed: bool,
        elements: &[Vec<u8>],
        sub_element: &[u8],
        miss: &[u8],
    ) -> (step: EnsembleStep)
        requires
            layout matches Some(l) ==> l.fits(argv@.len() as int),
            found matches Some(i) ==> i < subs@.len(),
        ensures
            match (*layout, found) {
                (None, _) => step is Failed && raised(
                    *old(self),
                    *final(self),
                    ensemble_usage(argv@, views(elements@)),
                ),
                (Some(l), Some(i)) => {
                    &&& *final(self) == *old(self)
                    &&& target_chosen(step, *cfg, views(argv@), l, ns_name@, subs@[i as int]@)
                },
                (Some(_), None) => subcommand_missed(
                    *old(self),
                    *final(self),
                    *cfg,
                    reparsed,
                    sub_element@,
                    miss@,
                    step,
                ),
            },
    {
        let l: Layout = match layout {
            None => {
                self.ensemble_wrong_args(argv, elements);
                return EnsembleStep::Failed;
            },
            Some(l) => *l,
        };
        match found {
            Some(i) => {
                let sub = &subs[i];
                let entry = find_mapped(cfg, sub);
                let is_default = entry.is_none();
                let prefix: Vec<Vec<u8>> = match entry {
                    Some(p) => p,
                    None => {
                        let mut t = copied(ns_name);
                        if cfg.ns != GLOBAL {
                            append_text(&mut t, "::");
                        }
                        append(&mut t, sub);
                        let mut one: Vec<Vec<u8>> = Vec::new();
                        one.push(t);
                        assert(views(one@) =~= seq![default_target(cfg.ns, ns_name@, sub@)]);
                        one
                    },
                };
                let mut source = copied_words(argv);
                let ghost words = views(argv@);
                assert(views(source@).len() == source@.len());
                assert(words.len() == argv@.len());
                let ghost before = source@;
                source.set(l.subcommand, copied(sub));
                assert forall|k: int| 0 <= k < source@.len() implies #[trigger] views(source@)[k]
                    == words.update(l.subcommand as int, sub@)[k] by {
                    assert(views(before)[k] == words[k]);
                }
                assert(views(source@) =~= words.update(l.subcommand as int, sub@));
                let default_name: Option<Vec<u8>> = if is_default {
                    Some(copied(sub))
                } else {
                    None
                };
                EnsembleStep::Target { prefix, source, default_name }
            },
            None => {
                if cfg.unknown.len() > 0 && !reparsed {
                    return EnsembleStep::AskUnknown;
                }
                let code = lookup_code("SUBCOMMAND", sub_element);
                self.error_with_code(miss, &code);
                EnsembleStep::Failed
            },
        }
    }
}

/// The error code for a failed look-up of `element`.
pub fn lookup_code(kind: &str, element: &[u8]) -> (r: Vec<u8>)
    ensures
        r@ == spaced(seq![text("TCL"), text("LOOKUP"), text(kind), element@]),
{
    let mut ws: Vec<Vec<u8>> = Vec::new();
    ws.push(lit("TCL"));
    ws.push(lit("LOOKUP"));
    ws.push(lit(kind));
    ws.push(copied(element));
    assert(views(ws@) =~= seq![text("TCL"), text("LOOKUP"), text(kind), element@]);
    crate::words::error_code_list(&ws)
}

/// A rewrite after a nested one is chained onto it: the words stay those of the
/// outermost call, and the counts take the inner step in.
pub open spec fn chained(r: EnsembleRewrite, removed: usize, inserted: usize) -> EnsembleRewrite {
    if r.inserted < removed {
        EnsembleRewrite {
            removed: (r.removed + (removed - r.inserted)) as usize,
            inserted,
            ..r
        }
    } else {
        EnsembleRewrite {
            inserted: if r.inserted + inserted < removed {
                0
            } else {
                (r.inserted + inserted - removed) as usize
            },
            ..r
        }
    }
}

/// The words of the command that an ensemble's target is called with.
pub open spec fn target_words(
    prefix: Seq<Seq<u8>>,
    argv: Seq<Seq<u8>>,
    l: Layout,
) -> Seq<Seq<u8>> {
    prefix + argv.subrange(l.parameters_from as int, l.parameters_to as int) + argv.skip(
        l.arguments as int,
    )
}

/// The message for a command name that names nothing.
pub open spec fn invalid_name(name: Seq<u8>) -> Seq<u8> {
    text("invalid command name \"") + name + text("\"")
}

/// An interpreter that has noted the words of a forwarded call; `root` says that
/// it is the outermost forward.
pub open spec fn forward_noted(
    before: Interp,
    after: Interp,
    source: Vec<Vec<u8>>,
    removed: usize,
    inserted: usize,
    root: bool,
) -> bool {
    &&& root == before.state.ensemble_rewrite is None
    &&& after == (Interp {
        state: InterpState {
            ensemble_rewrite: match before.state.ensemble_rewrite {
                None => Some(EnsembleRewrite { source, removed, inserted }),
                Some(r) => Some(chained(r, removed, inserted)),
            },
            ..before.state
        },
        ..before
    })
}

/// The end of a call of an ensemble's target.
pub open spec fn target_finished(
    before: Interp,
    code: Code,
    target: Seq<u8>,
    missing_default: Option<Seq<u8>>,
    is_root: bool,
    after: Interp,
) -> bool {
    &&& after.state.result@ == if code == Code::Error && missing_default is Some
        && before.state.result@ == invalid_name(target) {
        invalid_name(missing_default->0)
    } else {
        before.state.result@
    }
    &&& after == (Interp {
        state: InterpState {
            result: after.state.result,
            ensemble_rewrite: if is_root {
                None
            } else {
                before.state.ensemble_rewrite
            },
            ..before.state
        },
        ..before
    })
}

impl Interp {
    /// Notes the words that a forwarded call was written with. Returns whether
    /// this is the outermost forward, which then forgets them when it returns.
    pub fn begin_ensemble_rewrite(
        &mut self,
        source: Vec<Vec<u8>>,
        removed: usize,
        inserted: usize,
    ) -> (root: bool)
        requires
            old(self).state.ensemble_rewrite matches Some(r) ==> r.removed + removed <= usize::MAX
                && r.inserted + inserted <= usize::MAX,
        ensures
            forward_noted(*old(self), *final(self), source, removed, inserted, root),
    {
        match self.state.ensemble_rewrite.take() {
            None => {
                self.state.ensemble_rewrite = Some(EnsembleRewrite { source, removed, inserted });
                true
            },
            Some(r) => {
                let mut r = r;
                if r.inserted < removed {
                    r.removed = r.removed + (removed - r.inserted);
                    r.inserted = inserted;
                } else {
                    let total = r.inserted + inserted;
                    r.inserted = if total < removed {
                        0
                    } else {
                        total - removed
                    };
                }
                self.state.ensemble_rewrite = Some(r);
                false
            },
        }
    }

    /// Forgets the words of a forwarded call.
    pub fn clear_ensemble_rewrite(&mut self)
        ensures
            *final(self) == (Interp {
                state: InterpState { ensemble_rewrite: None, ..old(self).state },
                ..*old(self)
            }),
    {
        self.state.ensemble_rewrite = None;
    }

    /// Begins the call of an ensemble's target. Returns its words, and whether
    /// it is the outermost forward.
    pub fn begin_ensemble_target(
        &mut self,
        prefix: &[Vec<u8>],
        argv: &[Vec<u8>],
        layout: Layout,
        source: Vec<Vec<u8>>,
    ) -> (r: (Vec<Vec<u8>>, bool))
        requires
            layout.fits(argv@.len() as int),
            prefix@.len() + argv@.len() <= usize::MAX,
            old(self).state.ensemble_rewrite matches Some(r) ==> r.removed + argv@.len()
                <= usize::MAX && r.inserted + prefix@.len() + argv@.len() <= usize::MAX,
        ensures
            views(r.0@) == target_words(views(prefix@), views(argv@), layout),
            forward_noted(
                *old(self),
                *final(self),
                source,
                layout.arguments,
                (prefix@.len() + (layout.parameters_to - layout.parameters_from)) as usize,
                r.1,
            ),
    {
        let mut out = copied_words(prefix);
        let ghost pre = views(prefix@);
        let ghost ws = views(argv@);
        assert(pre.len() == prefix@.len() && ws.len() == argv@.len());
        assert(views(out@).len() == out@.len());
        let mut i: usize = layout.parameters_from;
        assert(views(out@) =~= pre + ws.subrange(i as int, i as int));
        while i < layout.parameters_to
            invariant
                layout.fits(argv@.len() as int),
                layout.parameters_from <= i <= layout.parameters_to,
                ws == views(argv@),
                views(out@) == pre + ws.subrange(layout.parameters_from as int, i as int),
            decreases layout.parameters_to - i,
        {
            let ghost before = views(out@);
            out.push(copied(&argv[i]));
            assert(views(out@) =~= before.push(ws[i as int]));
            assert(ws.subrange(layout.parameters_from as int, i + 1) =~= ws.subrange(
                layout.parameters_from as int,
                i as int,
            ).push(ws[i as int]));
            i = i + 1;
        }
        let ghost head = views(out@);
        let mut k: usize = layout.arguments;
        assert(views(out@) =~= head + ws.subrange(k as int, k as int));
        while k < argv.len()
            invariant
                layout.arguments <= k <= argv@.len(),
                ws == views(argv@),
                views(out@) == head + ws.subrange(layout.arguments as int, k as int),
            decreases argv@.len() - k,
        {
            let ghost before = views(out@);
            out.push(copied(&argv[k]));
            assert(views(out@) =~= before.push(ws[k as int]));
            assert(ws.subrange(layout.arguments as int, k + 1) =~= ws.subrange(
                layout.arguments as int,
                k as int,
            ).push(ws[k as int]));
            k = k + 1;
        }
        assert(ws.subrange(layout.arguments as int, argv@.len() as int) =~= ws.skip(
            layout.arguments as int,
        ));
        let nparams = layout.parameters_to - layout.parameters_from;
        let root = self.begin_ensemble_rewrite(source, layout.arguments, prefix.len() + nparams);
        (out, root)
    }

    /// Ends the call of an ensemble's target. `default_name` is the subcommand
    /// where the target is its default one, and `was_there` says that the target
    /// existed as the call began: the message of a default target that did not
    /// is put in the terms of the ensemble.
    pub fn end_ensemble_target(
        &mut self,
        code: Code,
        target: &[u8],
        default_name: &Option<Vec<u8>>,
        was_there: bool,
        is_root: bool,
    )
        ensures
            target_finished(
                *old(self),
                code,
                target@,
                if was_there {
                    None
                } else {
                    crate::bytes::opt_view(*default_name)
                },
                is_root,
                *final(self),
            ),
    {
        if code == Code::Error && !was_there {
            if let Some(name) = default_name {
                let qualified = framed("invalid command name \"", target, "\"");
                if same(&self.state.result, &qualified) {
                    self.state.result = framed("invalid command name \"", name, "\"");
                }
            }
        }
        if is_root {
            self.clear_ensemble_rewrite();
        }
    }
}

/// Nesting a forward never changes the words the outermost call was written
/// with.
pub proof fn chained_keeps_source(r: EnsembleRewrite, removed: usize, inserted: usize)
    ensures
        chained(r, removed, inserted).source == r.source,
{
}

/// The outermost forward leaves no words behind, and a nested one leaves the
/// words of the outermost, whatever the target notes in between.
pub proof fn a_forward_leaves_the_words_of_the_outermost(
    before: Interp,
    begun: Interp,
    ran: Interp,
    after: Interp,
    source: Vec<Vec<u8>>,
    removed: usize,
    inserted: usize,
    root: bool,
    code: Code,
    target: Seq<u8>,
    missing_default: Option<Seq<u8>>,
)
    requires
        forward_noted(before, begun, source, removed, inserted, root),
        ran.state.ensemble_rewrite is Some == begun.state.ensemble_rewrite is Some,
        ran.state.ensemble_rewrite->0.source == begun.state.ensemble_rewrite->0.source,
        target_finished(ran, code, target, missing_default, root, after),
    ensures
        after.state.ensemble_rewrite is Some == before.state.ensemble_rewrite is Some,
        before.state.ensemble_rewrite matches Some(r) ==> after.state.ensemble_rewrite->0.source
            == r.source,
{
}

/// What an `-unknown` handler decided.
pub enum EnsembleUnknown {
    /// Dispatch to this command prefix.
    Prefix(Vec<Vec<u8>>),
    /// The handler made the subcommand: parse the call again.
    Reparse,
    /// The handler failed.
    Failed(Code),
}

/// Why a handler's result is no list.
#[derive(Debug, Clone, Copy, PartialEq, Eq, Structural)]
pub enum ListError {
    UnmatchedBrace,
    UnmatchedQuote,
    BraceFollowedByJunk,
    QuoteFollowedByJunk,
    NotUtf8,
}

/// The error code for a value that is no list.
pub open spec fn list_error_code(e: ListError) -> Seq<u8> {
    match e {
        ListError::UnmatchedBrace => text("TCL VALUE LIST BRACE"),
        ListError::UnmatchedQuote => text("TCL VALUE LIST QUOTE"),
        ListError::BraceFollowedByJunk | ListError::QuoteFollowedByJunk => text(
            "TCL VALUE LIST JUNK",
        ),
        ListError::NotUtf8 => text("TCL VALUE LIST"),
    }
}

/// What an `-unknown` handler left behind, as far as its completion is okay.
pub struct HandlerResult {
    /// Whether the handler deleted the ensemble.
    pub deleted: bool,
    /// The elements of its result, or why it is no list and the message that
    /// says so.
    pub split: Result<Vec<Vec<u8>>, (ListError, Vec<u8>)>,
}

/// The messages for an ensemble that its handler deleted.
pub struct DeletedMessages {
    pub message: Vec<u8>,
    pub code: Vec<u8>,
}

/// The word for a completion that a handler may not end with.
pub open spec fn bad_code_word(c: Code) -> Seq<u8> {
    match c {
        Code::Return => text("return"),
        Code::Break => text("break"),
        Code::Continue => text("continue"),
        Code::Other(n) => decimal(n as int),
        Code::Okay => text(""),
        Code::Error => text(""),
    }
}

/// The result and the error trace that a refused handler leaves.
pub open spec fn handler_failed(
    before: Interp,
    after: Interp,
    msg: Seq<u8>,
    code: Seq<u8>,
    note: Seq<u8>,
) -> bool {
    &&& after.state.result@ == msg
    &&& after.state.exc@ == (ExceptionView {
        info: Some(msg + note),
        code,
        code_explicit: false,
        already_logged: false,
    })
    &&& after == (Interp {
        state: InterpState { result: after.state.result, exc: after.state.exc, ..before.state },
        ..before
    })
}

/// The words of a call of the `-unknown` handler: the handler, the ensemble's
/// name, and the words of the call.
pub fn unknown_handler_words(handler: &[Vec<u8>], name: &[u8], argv: &[Vec<u8>]) -> (r: Vec<
    Vec<u8>,
>)
    requires
        argv@.len() >= 1,
    ensures
        views(r@) == handler_words(views(handler@), name@, views(argv@)),
{
    let mut out = copied_words(handler);
    let ghost head = views(handler@);
    assert(views(out@).len() == out@.len() && head.len() == handler@.len());
    let ghost before = views(out@);
    out.push(copied(name));
    assert(views(out@) =~= before.push(name@));
    let ghost ws = views(argv@);
    let ghost start = views(out@);
    let mut i: usize = 1;
    assert(views(out@) =~= start + ws.subrange(1, 1));
    while i < argv.len()
        invariant
            1 <= i <= argv@.len(),
            ws == views(argv@),
            views(out@) == start + ws.subrange(1, i as int),
        decreases argv@.len() - i,
    {
        let ghost so_far = views(out@);
        out.push(copied(&argv[i]));
        assert(views(out@) =~= so_far.push(ws[i as int]));
        assert(ws.subrange(1, i + 1) =~= ws.subrange(1, i as int).push(ws[i as int]));
        i = i + 1;
    }
    assert(ws.subrange(1, argv@.len() as int) =~= ws.skip(1));
    out
}

/// The note that a handler's error is marked with.
pub open spec fn handler_note() -> Seq<u8> {
    text("\n    (") + text("ensemble unknown subcommand handler") + text(")")
}

/// What comes of a handler that completed okay: an empty result asks for another
/// parse, any other is the command prefix to dispatch to.
pub open spec fn handler_judged(
    before: Interp,
    after: Interp,
    got: HandlerResult,
    gone: DeletedMessages,
    r: EnsembleUnknown,
) -> bool {
    if got.deleted {
        r == EnsembleUnknown::Failed(Code::Error) && handler_failed(
            before,
            after,
            gone.message@,
            gone.code@,
            handler_note(),
        )
    } else {
        match got.split {
            Ok(ws) => {
                &&& after == before
                &&& r == if ws@.len() > 0 {
                    EnsembleUnknown::Prefix(ws)
                } else {
                    EnsembleUnknown::Reparse
                }
            },
            Err(e) => r == EnsembleUnknown::Failed(Code::Error) && handler_failed(
                before,
                after,
                e.1@,
                list_error_code(e.0),
                text("\n    ") + text(
                    "while parsing result of ensemble unknown subcommand handler",
                ),
            ),
        }
    }
}

/// The error of a handler is logged, with the first command of the list that it
/// was called by, where that has one. `r` is the trace, where it was logged.
pub open spec fn handler_error_logged(
    before: Interp,
    after: Interp,
    handler: HandlerCall,
    r: Option<Vec<u8>>,
) -> bool {
    match handler.first {
        Some(c) => command_logged(
            before,
            after,
            handler.call@.subrange(c.start as int, c.end as int),
            line_at(handler.call@, c.start as int) as u32,
            handler.top,
            handler.active,
            r,
        ),
        None => r is None && after == before,
    }
}

/// The error of a handler is marked as the handler's.
pub open spec fn handler_error_marked(before: Interp, after: Interp) -> bool {
    &&& after.state.exc@ == (ExceptionView {
        info: Some(trace_text(before.state) + handler_note()),
        already_logged: false,
        ..before.state.exc@
    })
    &&& only_trace_changed(before, after)
}

/// An error of a handler that nothing deeper has logged names the call of the
/// handler, and then the handler itself.
pub proof fn a_handler_error_names_the_handler(
    before: Interp,
    logged: Interp,
    after: Interp,
    handler: HandlerCall,
    r: Option<Vec<u8>>,
)
    requires
        handler.first is Some,
        !before.state.exc.already_logged,
        handler_error_logged(before, logged, handler, r),
        handler_error_marked(logged, after),
    ensures
        after.state.exc@.info == Some(
            trace_text(before.state) + command_entry(
                before.state.exc.info is Some,
                handler.call@.subrange(
                    handler.first->0.start as int,
                    handler.first->0.end as int,
                ),
            ) + handler_note(),
        ),
        after.state.result == before.state.result,
{
}

/// The error for a handler that ended with a code it may not end with.
pub open spec fn handler_refused(before: Interp, after: Interp, code: Code, call: Seq<u8>) -> bool {
    handler_failed(
        before,
        after,
        text("unknown subcommand handler returned bad code: ") + bad_code_word(code),
        text("TCL ENSEMBLE UNKNOWN_RESULT"),
        text("\n    ") + (text("result of ensemble unknown subcommand handler: ") + call),
    )
}

impl Interp {
    /// Judges an `-unknown` handler that completed okay: an empty result asks
    /// for another parse, any other is the command prefix to dispatch to.
    pub fn ensemble_unknown_okay(&mut self, got: HandlerResult, gone: &DeletedMessages) -> (r:
        EnsembleUnknown)
        ensures
            handler_judged(*old(self), *final(self), got, *gone, r),
    {
        if got.deleted {
            let code = self.error_with_code(&gone.message, &gone.code);
            self.append_frame_noline("ensemble unknown subcommand handler".as_bytes());
            return EnsembleUnknown::Failed(code);
        }
        match got.split {
            Ok(ws) => {
                if ws.len() > 0 {
                    EnsembleUnknown::Prefix(ws)
                } else {
                    EnsembleUnknown::Reparse
                }
            },
            Err((e, message)) => {
                let error_code: &str = match e {
                    ListError::UnmatchedBrace => "TCL VALUE LIST BRACE",
                    ListError::UnmatchedQuote => "TCL VALUE LIST QUOTE",
                    ListError::BraceFollowedByJunk
                    | ListError::QuoteFollowedByJunk => "TCL VALUE LIST JUNK",
                    ListError::NotUtf8 => "TCL VALUE LIST",
                };
                let code = self.error_with_code(&message, error_code.as_bytes());
                self.append_error_info_context(
                    "while parsing result of ensemble unknown subcommand handler".as_bytes(),
                );
                EnsembleUnknown::Failed(code)
            },
        }
    }

    /// Marks the error of an `-unknown` handler, once its trace is told to those
    /// who watch it.
    pub fn ensemble_unknown_error(&mut self) -> (r: EnsembleUnknown)
        ensures
            r == EnsembleUnknown::Failed(Code::Error),
            handler_error_marked(*old(self), *final(self)),
    {
        self.append_frame_noline("ensemble unknown subcommand handler".as_bytes());
        EnsembleUnknown::Failed(Code::Error)
    }

    /// Refuses an `-unknown` handler that ended with anything but okay or an
    /// error. `call` is the list of the words it was called with.
    pub fn ensemble_unknown_bad_code(&mut self, code: Code, call: &[u8]) -> (r: EnsembleUnknown)
        requires
            code != Code::Okay,
            code != Code::Error,
        ensures
            r == EnsembleUnknown::Failed(Code::Error),
            handler_refused(*old(self), *final(self), code, call@),
    {
        let mut m = lit("unknown subcommand handler returned bad code: ");
        match code {
            Code::Return => append_text(&mut m, "return"),
            Code::Break => append_text(&mut m, "break"),
            Code::Continue => append_text(&mut m, "continue"),
            Code::Other(n) => append(&mut m, &decimal_i64(n as i64)),
            Code::Okay | Code::Error => {},
        }
        let failed = self.error_with_code(&m, "TCL ENSEMBLE UNKNOWN_RESULT".as_bytes());
        let mut note = lit("result of ensemble unknown subcommand handler: ");
        append(&mut note, call);
        self.append_error_info_context(&note);
        EnsembleUnknown::Failed(failed)
    }
}

/// The place of a command in a script.
#[derive(Debug, Clone, Copy, PartialEq, Eq, Structural)]
pub struct Span {
    pub start: usize,
    pub end: usize,
}

/// How a handler was called, for the trace of its error.
pub struct HandlerCall {
    /// The list of the words.
    pub call: Vec<u8>,
    /// Where the first command of that list begins and ends, as a script.
    pub first: Option<Span>,
    /// The variable frames.
    pub top: usize,
    pub active: usize,
}

impl HandlerCall {
    /// Whether the first command stands in the list, and its line can be told by
    /// an interpreter.
    pub open spec fn fits(self, i: Interp) -> bool {
        self.first matches Some(c) ==> {
            &&& c.start <= c.end <= self.call@.len()
            &&& line_at(self.call@, c.start as int) <= u32::MAX
            &&& i.state.cmd_frames@.len() > 0 ==> i.state.cmd_frames@.last().line_base + line_at(
                self.call@,
                c.start as int,
            ) <= u32::MAX
        }
    }
}

/// What comes of the completion of an `-unknown` handler.
pub enum HandlerStep {
    Decided(EnsembleUnknown),
    /// The handler failed, and its call was logged where there is a trace: a
    /// variable that watches the trace is told it. Then
    /// [`Interp::ensemble_unknown_error`] marks the error.
    Logged(Option<Vec<u8>>),
}

impl Interp {
    /// Takes the completion of an `-unknown` handler.
    pub fn ensemble_unknown(
        &mut self,
        code: Code,
        got: HandlerResult,
        gone: &DeletedMessages,
        handler: &HandlerCall,
    ) -> (r: HandlerStep)
        requires
            handler.fits(*old(self)),
        ensures
            match code {
                Code::Okay => r matches HandlerStep::Decided(u) && handler_judged(
                    *old(self),
                    *final(self),
                    got,
                    *gone,
                    u,
                ),
                Code::Error => r matches HandlerStep::Logged(t) && handler_error_logged(
                    *old(self),
                    *final(self),
                    *handler,
                    t,
                ),
                other => {
                    &&& r == HandlerStep::Decided(EnsembleUnknown::Failed(Code::Error))
                    &&& handler_refused(*old(self), *final(self), other, handler.call@)
                },
            },
    {
        match code {
            Code::Okay => HandlerStep::Decided(self.ensemble_unknown_okay(got, gone)),
            Code::Error => {
                let trace = match handler.first {
                    Some(c) => self.log_command_info(
                        &handler.call,
                        c.start,
                        c.end,
                        handler.top,
                        handler.active,
                    ),
                    None => None,
                };
                HandlerStep::Logged(trace)
            },
            other => HandlerStep::Decided(self.ensemble_unknown_bad_code(other, &handler.call)),
        }
    }

    /// Goes on with a call of an ensemble after its `-unknown` handler was asked.
    /// `layout` and `elements` go by the configuration as it is now.
    pub fn resume_ensemble(
        &mut self,
        answer: EnsembleUnknown,
        argv: &[Vec<u8>],
        layout: &Option<Layout>,
        elements: &[Vec<u8>],
    ) -> (r: Result<EnsembleStep, Code>)
        ensures
            ensemble_resumed(
                *old(self),
                *final(self),
                answer,
                argv@,
                layout is Some,
                views(elements@),
                r,
            ),
    {
        match answer {
            EnsembleUnknown::Prefix(prefix) => {
                if layout.is_none() {
                    self.ensemble_wrong_args(argv, elements);
                    return Ok(EnsembleStep::Failed);
                }
                Ok(EnsembleStep::Target { prefix, source: copied_words(argv), default_name: None })
            },
            EnsembleUnknown::Reparse => Ok(EnsembleStep::Reparse),
            EnsembleUnknown::Failed(c) => Err(c),
        }
    }
}

/// Whether entry `i` of a map is the first for `key`.
pub open spec fn first_for(m: Seq<MapEntry>, key: Seq<u8>, i: int) -> bool {
    &&& 0 <= i < m.len()
    &&& m[i].key@ == key
    &&& forall|j: int| 0 <= j < i ==> (#[trigger] m[j]).key@ != key
}

/// Whether a map has an entry for `key`.
pub open spec fn has_entry(m: Seq<MapEntry>, key: Seq<u8>) -> bool {
    exists|i: int| 0 <= i < m.len() && (#[trigger] m[i]).key@ == key
}

/// Looking a key up finds its first entry.
proof fn mapped_finds_the_first(m: Seq<MapEntry>, key: Seq<u8>)
    ensures
        match mapped(m, key) {
            Some(p) => exists|i: int| #[trigger] first_for(m, key, i) && p == views(m[i].prefix@),
            None => !has_entry(m, key),
        },
    decreases m.len(),
{
    if m.len() > 0 {
        if m[0].key@ == key {
            assert(first_for(m, key, 0));
        } else {
            let t = m.skip(1);
            mapped_finds_the_first(t, key);
            if mapped(t, key) is Some {
                let i = choose|i: int| #[trigger]
                    first_for(t, key, i) && mapped(t, key)->0 == views(t[i].prefix@);
                assert forall|j: int| 0 <= j < i + 1 implies (#[trigger] m[j]).key@ != key by {
                    if j > 0 {
                        assert(t[j - 1] == m[j]);
                    }
                }
                assert(first_for(m, key, i + 1));
            } else if has_entry(m, key) {
                let i = choose|i: int| 0 <= i < m.len() && (#[trigger] m[i]).key@ == key;
                assert(t[i - 1].key@ == key);
            }
        }
    }
}

/// A subcommand that the map has an entry for stands for the prefix of the
/// first such entry. Only one that the map has no entry for stands for the
/// command of its name in the ensemble's namespace.
pub proof fn the_map_decides_the_target(
    step: EnsembleStep,
    cfg: EnsembleConfig,
    argv: Seq<Seq<u8>>,
    l: Layout,
    ns_name: Seq<u8>,
    sub: Seq<u8>,
)
    requires
        target_chosen(step, cfg, argv, l, ns_name, sub),
    ensures
        step is Target,
        cfg.map is Some && has_entry(cfg.map->0@, sub) ==> {
            &&& step->default_name is None
            &&& exists|i: int| #[trigger]
                first_for(cfg.map->0@, sub, i) && views(step->prefix@) == views(
                    cfg.map->0@[i].prefix@,
                )
        },
        cfg.map is None || !has_entry(cfg.map->0@, sub) ==> {
            &&& step->default_name matches Some(d)
            &&& d@ == sub
            &&& views(step->prefix@) == seq![
                if cfg.ns == GLOBAL {
                    ns_name + sub
                } else {
                    ns_name + text("::") + sub
                },
            ]
        },
{
    if let Some(m) = cfg.map {
        mapped_finds_the_first(m@, sub);
        if mapped(m@, sub) is Some {
            let i = choose|i: int| #[trigger]
                first_for(m@, sub, i) && mapped(m@, sub)->0 == views(m@[i].prefix@);
            assert(m@[i].key@ == sub);
        }
    }
}

/// The words that a call is remembered by are those it was made with, the
/// subcommand spelled out.
pub proof fn a_call_is_remembered_with_its_subcommand(
    step: EnsembleStep,
    cfg: EnsembleConfig,
    argv: Seq<Seq<u8>>,
    l: Layout,
    ns_name: Seq<u8>,
    sub: Seq<u8>,
    i: int,
)
    requires
        target_chosen(step, cfg, argv, l, ns_name, sub),
        l.fits(argv.len() as int),
        0 <= i < argv.len(),
    ensures
        step->source@.len() == argv.len(),
        i == l.subcommand ==> step->source@[i]@ == sub,
        i != l.subcommand ==> step->source@[i]@ == argv[i],
{
    let ws = views(step->source@);
    assert(ws.len() == step->source@.len());
    assert(ws[i] == step->source@[i]@);
}

/// The target of an ensemble is called with its prefix in front and, in their
/// order, with all the words of the call but the ensemble's name and the
/// subcommand, wherever the subcommand stands.
pub proof fn a_target_gets_the_words_around_the_subcommand(
    prefix: Seq<Seq<u8>>,
    argv: Seq<Seq<u8>>,
    l: Layout,
)
    requires
        l.fits(argv.len() as int),
        l.parameters_from == 1,
        l.parameters_to == l.subcommand,
        l.arguments == l.subcommand + 1,
    ensures
        ({
            let ws = target_words(prefix, argv, l);
            let n = prefix.len() as int;
            &&& ws.len() == n + argv.len() - 2
            &&& ws.take(n) == prefix
            &&& forall|i: int| 1 <= i < l.subcommand ==> ws[n + i - 1] == #[trigger] argv[i]
            &&& forall|i: int|
                l.subcommand < i < argv.len() ==> ws[n + i - 2] == #[trigger] argv[i]
        }),
{
    assert(target_words(prefix, argv, l).take(prefix.len() as int) =~= prefix);
}

/// The words that may be subcommands are those that are listed; where none are
/// listed, the keys of the map; and where there is no map either, the exported
/// commands.
pub proof fn a_list_comes_before_the_map(
    cfg: EnsembleConfig,
    exported: Seq<Seq<u8>>,
    w: Seq<u8>,
)
    ensures
        cfg.subcommands matches Some(list) ==> (candidate_words(cfg, exported).contains(w) <==>
            exists|i: int| 0 <= i < list@.len() && (#[trigger] list@[i])@ == w),
        cfg.subcommands is None && cfg.map is Some ==> (candidate_words(cfg, exported).contains(w)
            <==> has_entry(cfg.map->0@, w)),
        cfg.subcommands is None && cfg.map is None ==> (candidate_words(cfg, exported).contains(w)
            <==> exported.contains(w)),
{
    let cs = candidate_words(cfg, exported);
    match (cfg.subcommands, cfg.map) {
        (Some(list), _) => {
            if cs.contains(w) {
                let i = choose|i: int| 0 <= i < cs.len() && cs[i] == w;
                assert(list@[i]@ == w);
            }
            if exists|i: int| 0 <= i < list@.len() && (#[trigger] list@[i])@ == w {
                let i = choose|i: int| 0 <= i < list@.len() && (#[trigger] list@[i])@ == w;
                assert(cs[i] == w);
            }
        },
        (None, Some(m)) => {
            if cs.contains(w) {
                let i = choose|i: int| 0 <= i < cs.len() && cs[i] == w;
                assert(m@[i].key@ == w);
            }
            if has_entry(m@, w) {
                let i = choose|i: int| 0 <= i < m@.len() && (#[trigger] m@[i]).key@ == w;
                assert(cs[i] == w);
            }
        },
        (None, None) => {},
    }
}

/// What an `-unknown` handler that succeeded decides: nothing asks for another
/// parse, a list of words is the command to run in the subcommand's place, and
/// neither touches the interpreter. What is no list, or came when the ensemble
/// was deleted, is an error with the message for it.
pub proof fn a_handler_names_the_command_or_asks_again(
    before: Interp,
    after: Interp,
    got: HandlerResult,
    gone: DeletedMessages,
    r: EnsembleUnknown,
)
    requires
        handler_judged(before, after, got, gone, r),
    ensures
        got.deleted ==> r == EnsembleUnknown::Failed(Code::Error) && after.state.result@
            == gone.message@,
        !got.deleted && got.split is Err ==> r == EnsembleUnknown::Failed(Code::Error)
            && after.state.result@ == (got.split->Err_0).1@,
        !got.deleted && got.split is Ok ==> after == before,
        !got.deleted && got.split is Ok && (got.split->Ok_0)@.len() == 0 ==> r is Reparse,
        !got.deleted && got.split is Ok && (got.split->Ok_0)@.len() > 0 ==> r
            == EnsembleUnknown::Prefix(got.split->Ok_0),
{
}

/// A call of a target that ends leaves its result alone, unless it failed for
/// the want of the command that the subcommand stands for by its own name: then
/// the message names the subcommand as it was written.
pub proof fn a_missing_target_is_named_as_written(
    before: Interp,
    code: Code,
    target: Seq<u8>,
    missing_default: Option<Seq<u8>>,
    is_root: bool,
    after: Interp,
)
    requires
        target_finished(before, code, target, missing_default, is_root, after),
    ensures
        code != Code::Error || missing_default is None ==> after.state.result@
            == before.state.result@,
        code == Code::Error && missing_default is Some && before.state.result@ == text(
            "invalid command name \"",
        ) + target + text("\"") ==> after.state.result@ == text("invalid command name \"")
            + missing_default->0 + text("\""),
        code == Code::Error && before.state.result@ != text("invalid command name \"") + target
            + text("\"") ==> after.state.result@ == before.state.result@,
        is_root ==> after.state.ensemble_rewrite is None,
        !is_root ==> after.state.ensemble_rewrite == before.state.ensemble_rewrite,
{
}

/// Forwarding a call that is itself forwarded: the words that the author wrote
/// and that the two steps took away are counted together, and so are those that
/// they put in front. What is left over of the author's words is the same
/// either way.
pub proof fn forwarding_twice_counts_both(r: EnsembleRewrite, removed: usize, inserted: usize)
    requires
        r.removed + removed <= usize::MAX,
        r.inserted + inserted <= usize::MAX,
    ensures
        removed <= r.inserted ==> chained(r, removed, inserted).removed == r.removed && chained(
            r,
            removed,
            inserted,
        ).inserted == r.inserted - removed + inserted,
        removed > r.inserted ==> chained(r, removed, inserted).removed == r.removed + (removed
            - r.inserted) && chained(r, removed, inserted).inserted == inserted,
        chained(r, removed, inserted).inserted - chained(r, removed, inserted).removed
            == r.inserted - r.removed + inserted - removed,
{
}

/// The message for too few words shows the call with its parameters, one space
/// before each.
pub proof fn parameters_are_shown_in_order(a: Seq<Seq<u8>>, b: Seq<Seq<u8>>, w: Seq<u8>)
    ensures
        prefixed_all(a + b) == prefixed_all(a) + prefixed_all(b),
        prefixed_all(seq![w]) == text(" ") + w,
    decreases b.len(),
{
    reveal_with_fuel(prefixed_all, 2);
    assert(Seq::<u8>::empty() + text(" ") + w =~= text(" ") + w);
    assert(seq![w].drop_last() =~= Seq::<Seq<u8>>::empty());
    if b.len() == 0 {
        assert(a + b =~= a);
        assert(prefixed_all(a) + prefixed_all(b) =~= prefixed_all(a));
    } else {
        assert((a + b).drop_last() =~= a + b.drop_last());
        parameters_are_shown_in_order(a, b.drop_last(), w);
        assert(prefixed_all(a + b) =~= prefixed_all(a) + prefixed_all(b));
    }
}

/// Whether `step` is what becomes of a call whose subcommand is none.
pub open spec fn subcommand_missed(
    before: Interp,
    after: Interp,
    cfg: EnsembleConfig,
    reparsed: bool,
    sub_element: Seq<u8>,
    miss: Seq<u8>,
    step: EnsembleStep,
) -> bool {
    if cfg.unknown@.len() > 0 && !reparsed {
        step is AskUnknown && after == before
    } else {
        step is Failed && raised_with(
            before,
            after,
            miss,
            spaced(seq![text("TCL"), text("LOOKUP"), text("SUBCOMMAND"), sub_element]),
        )
    }
}

/// The words that a handler is asked with: its own, the name of the ensemble,
/// and those of the call behind its name.
pub open spec fn handler_words(
    handler: Seq<Seq<u8>>,
    name: Seq<u8>,
    argv: Seq<Seq<u8>>,
) -> Seq<Seq<u8>> {
    handler.push(name) + argv.skip(1)
}

/// Whether `r` is how a call goes on once its handler has answered.
pub open spec fn ensemble_resumed(
    before: Interp,
    after: Interp,
    answer: EnsembleUnknown,
    argv: Seq<Vec<u8>>,
    fits: bool,
    elements: Seq<Seq<u8>>,
    r: Result<EnsembleStep, Code>,
) -> bool {
    match answer {
        EnsembleUnknown::Prefix(p) => if !fits {
            &&& r matches Ok(step) && step is Failed
            &&& raised(before, after, ensemble_usage(argv, elements))
        } else {
            &&& after == before
            &&& r matches Ok(EnsembleStep::Target { prefix, source, default_name }) && {
                &&& prefix == p
                &&& views(source@) == views(argv)
                &&& default_name is None
            }
        },
        EnsembleUnknown::Reparse => {
            &&& after == before
            &&& r matches Ok(step) && step is Reparse
        },
        EnsembleUnknown::Failed(c) => after == before && r == Err::<EnsembleStep, Code>(c),
    }
}

/// A subcommand that is none is taken to the handler once, if there is one. After
/// that, or without one, it is an error with the message for it.
pub proof fn a_missing_subcommand_asks_the_handler_once(
    before: Interp,
    after: Interp,
    cfg: EnsembleConfig,
    reparsed: bool,
    sub_element: Seq<u8>,
    miss: Seq<u8>,
    step: EnsembleStep,
)
    requires
        subcommand_missed(before, after, cfg, reparsed, sub_element, miss, step),
    ensures
        cfg.unknown@.len() > 0 && !reparsed ==> step is AskUnknown && after == before,
        cfg.unknown@.len() == 0 || reparsed ==> step is Failed && after.state.result@ == miss
            && after.state.exc@.code == spaced(
            seq![text("TCL"), text("LOOKUP"), text("SUBCOMMAND"), sub_element],
        ),
{
}

/// A handler is asked with its own words, then the name of the ensemble, then
/// the words of the call behind the name it was written with.
pub proof fn a_handler_is_asked_with_the_call(
    handler: Seq<Seq<u8>>,
    name: Seq<u8>,
    argv: Seq<Seq<u8>>,
)
    requires
        argv.len() >= 1,
    ensures
        ({
            let ws = handler_words(handler, name, argv);
            let n = handler.len() as int;
            &&& ws.len() == n + argv.len()
            &&& ws.take(n) == handler
            &&& ws[n] == name
            &&& forall|i: int| 1 <= i < argv.len() ==> ws[n + i] == #[trigger] argv[i]
        }),
{
    let ws = handler_words(handler, name, argv);
    assert(ws.take(handler.len() as int) =~= handler);
}

/// A call goes on with the words that its handler named, in the place of the
/// subcommand's own target; or is parsed again, or fails as the handler did.
pub proof fn a_call_goes_on_as_its_handler_said(
    before: Interp,
    after: Interp,
    answer: EnsembleUnknown,
    argv: Seq<Vec<u8>>,
    elements: Seq<Seq<u8>>,
    r: Result<EnsembleStep, Code>,
)
    requires
        ensemble_resumed(before, after, answer, argv, true, elements, r),
    ensures
        after == before,
        answer matches EnsembleUnknown::Prefix(p) ==> r is Ok && r->Ok_0 is Target
            && r->Ok_0->prefix == p && views(r->Ok_0->source@) == views(argv)
            && r->Ok_0->default_name is None,
        answer is Reparse ==> r is Ok && r->Ok_0 is Reparse,
        answer matches EnsembleUnknown::Failed(c) ==> r is Err && r->Err_0 == c,
{
}

/// A handler that ends with a code it may not end with is an error that names
/// the code.
pub proof fn a_refused_handler_names_its_code(
    before: Interp,
    after: Interp,
    code: Code,
    call: Seq<u8>,
)
    requires
        handler_refused(before, after, code, call),
    ensures
        code is Return ==> after.state.result@ == text(
            "unknown subcommand handler returned bad code: ",
        ) + text("return"),
        code is Break ==> after.state.result@ == text(
            "unknown subcommand handler returned bad code: ",
        ) + text("break"),
        code is Continue ==> after.state.result@ == text(
            "unknown subcommand handler returned bad code: ",
        ) + text("continue"),
        code matches Code::Other(n) ==> after.state.result@ == text(
            "unknown subcommand handler returned bad code: ",
        ) + decimal(n as int),
        after.state.exc@.code == text("TCL ENSEMBLE UNKNOWN_RESULT"),
        trace_text(after.state) == after.state.result@ + (text("\n    ") + (text(
            "result of ensemble unknown subcommand handler: ",
        ) + call)),
{
}

/// A result of a handler that is no list has the error code for what is wrong
/// with it.
pub proof fn a_bad_list_has_its_code(
    before: Interp,
    after: Interp,
    got: HandlerResult,
    gone: DeletedMessages,
    r: EnsembleUnknown,
)
    requires
        handler_judged(before, after, got, gone, r),
        !got.deleted,
        got.split is Err,
    ensures
        (got.split->Err_0).0 is UnmatchedBrace ==> after.state.exc@.code == text(
            "TCL VALUE LIST BRACE",
        ),
        (got.split->Err_0).0 is UnmatchedQuote ==> after.state.exc@.code == text(
            "TCL VALUE LIST QUOTE",
        ),
        (got.split->Err_0).0 is BraceFollowedByJunk || (got.split->Err_0).0 is QuoteFollowedByJunk
            ==> after.state.exc@.code == text("TCL VALUE LIST JUNK"),
        trace_text(after.state) == after.state.result@ + (text("\n    ") + text(
            "while parsing result of ensemble unknown subcommand handler",
        )),
{
}

/// A call that the handler named a command for, but that has too few words by
/// then, is a wrong call.
pub proof fn a_resumed_call_needs_its_words(
    before: Interp,
    after: Interp,
    p: Vec<Vec<u8>>,
    argv: Seq<Vec<u8>>,
    elements: Seq<Seq<u8>>,
    r: Result<EnsembleStep, Code>,
)
    requires
        argv.len() > 0,
        ensemble_resumed(before, after, EnsembleUnknown::Prefix(p), argv, false, elements, r),
    ensures
        r is Ok && r->Ok_0 is Failed,
        after.state.result@ == text("wrong # args: should be \"") + argv[0]@ + prefixed_all(
            elements,
        ) + text(" subcommand ?arg ...?\""),
{
}

/// The error of a handler keeps its message, and its trace says that it came
/// from the handler.
pub proof fn a_handlers_error_is_noted(before: Interp, after: Interp)
    requires
        handler_error_marked(before, after),
    ensures
        after.state.result == before.state.result,
        trace_text(after.state) == trace_text(before.state) + (text("\n    (") + text(
            "ensemble unknown subcommand handler",
        ) + text(")")),
        after.state.exc@.code == before.state.exc@.code,
        !after.state.exc@.already_logged,
{
}

} // verus!
