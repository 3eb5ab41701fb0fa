//! The predefined global variables: what is written when an interpreter starts,
//! changes its surroundings or becomes safe.

use vstd::prelude::*;

use crate::bytes::{append, copied, lit, text, views};
use crate::state::{fresh_state, GuardDomain, Interp, InterpState};

verus! {

/// One step that writes or removes a global variable. A raw step runs no trace.
#[derive(Debug)]
pub enum GlobalStep {
    Write { name: Vec<u8>, value: Vec<u8> },
    WriteRaw { name: Vec<u8>, value: Vec<u8> },
    WriteElementRaw { array: Vec<u8>, key: Vec<u8>, value: Vec<u8> },
    MakeArray(Vec<u8>),
    Unset(Vec<u8>),
    UnsetElement { array: Vec<u8>, key: Vec<u8> },
    UnsetRaw(Vec<u8>),
}

/// A step as plain values.
pub enum GlobalStepView {
    Write { name: Seq<u8>, value: Seq<u8> },
    WriteRaw { name: Seq<u8>, value: Seq<u8> },
    WriteElementRaw { array: Seq<u8>, key: Seq<u8>, value: Seq<u8> },
    MakeArray(Seq<u8>),
    Unset(Seq<u8>),
    UnsetElement { array: Seq<u8>, key: Seq<u8> },
    UnsetRaw(Seq<u8>),
}

impl View for GlobalStep {
    type V = GlobalStepView;

    open spec fn view(&self) -> GlobalStepView {
        match *self {
            GlobalStep::Write { name, value } => GlobalStepView::Write { name: name@, value: value@ },
            GlobalStep::WriteRaw { name, value } => GlobalStepView::WriteRaw {
                name: name@,
                value: value@,
            },
            GlobalStep::WriteElementRaw { array, key, value } => GlobalStepView::WriteElementRaw {
                array: array@,
                key: key@,
                value: value@,
            },
            GlobalStep::MakeArray(name) => GlobalStepView::MakeArray(name@),
            GlobalStep::Unset(name) => GlobalStepView::Unset(name@),
            GlobalStep::UnsetElement { array, key } => GlobalStepView::UnsetElement {
                array: array@,
                key: key@,
            },
            GlobalStep::UnsetRaw(name) => GlobalStepView::UnsetRaw(name@),
        }
    }
}

/// The steps in order.
pub open spec fn step_views(ss: Seq<GlobalStep>) -> Seq<GlobalStepView> {
    Seq::new(ss.len(), |i: int| ss[i]@)
}

/// A key and its value.
#[derive(Debug)]
pub struct Pair {
    pub key: Vec<u8>,
    pub value: Vec<u8>,
}

/// What the surroundings of an interpreter tell of themselves.
#[derive(Debug)]
pub struct HostGlobals {
    /// The names of the arrays that hold it.
    pub arrays: Vec<Vec<u8>>,
    /// The names of the variables that hold paths.
    pub paths: Vec<Vec<u8>>,
    pub library: Vec<u8>,
    pub platform: Vec<Pair>,
    pub environment: Vec<Pair>,
}

/// The global variable of a simple name.
pub open spec fn global_name(name: Seq<u8>) -> Seq<u8> {
    text("::") + name
}

/// The variables that report the release.
pub open spec fn release_steps(version: Seq<u8>, patchlevel: Seq<u8>) -> Seq<GlobalStepView> {
    seq![
        GlobalStepView::Write { name: text("::tcl_version"), value: version },
        GlobalStepView::Write { name: text("::tcl_patchLevel"), value: patchlevel },
    ]
}

/// Variables are removed, and no trace runs.
pub open spec fn raw_unsets(names: Seq<Seq<u8>>) -> Seq<GlobalStepView> {
    Seq::new(names.len(), |i: int| GlobalStepView::UnsetRaw(global_name(names[i])))
}

/// Variables are removed.
pub open spec fn unsets(names: Seq<Seq<u8>>) -> Seq<GlobalStepView> {
    Seq::new(names.len(), |i: int| GlobalStepView::Unset(global_name(names[i])))
}

/// The elements of an array are removed.
pub open spec fn element_unsets(array: Seq<u8>, keys: Seq<Seq<u8>>) -> Seq<GlobalStepView> {
    Seq::new(keys.len(), |i: int| GlobalStepView::UnsetElement { array, key: keys[i] })
}

/// The elements of an array are written, and no trace runs.
pub open spec fn raw_elements(array: Seq<u8>, ps: Seq<Pair>) -> Seq<GlobalStepView> {
    Seq::new(
        ps.len(),
        |i: int| GlobalStepView::WriteElementRaw { array, key: ps[i].key@, value: ps[i].value@ },
    )
}

/// The steps that make the variables tell of new surroundings: all that told of
/// the old ones go before anything is written.
pub open spec fn host_steps(h: HostGlobals) -> Seq<GlobalStepView> {
    raw_unsets(views(h.arrays@)) + raw_unsets(views(h.paths@)) + seq![
        GlobalStepView::MakeArray(text("::tcl_platform")),
        GlobalStepView::MakeArray(text("::env")),
        GlobalStepView::WriteRaw { name: text("::tcl_library"), value: h.library@ },
        GlobalStepView::WriteRaw { name: text("::auto_path"), value: Seq::empty() },
    ] + raw_elements(text("::tcl_platform"), h.platform@) + raw_elements(
        text("::env"),
        h.environment@,
    )
}

/// The steps that write the variables of a new interpreter.
pub open spec fn startup_steps(
    version: Seq<u8>,
    patchlevel: Seq<u8>,
    h: HostGlobals,
) -> Seq<GlobalStepView> {
    release_steps(version, patchlevel) + seq![
        GlobalStepView::Write { name: text("::tcl_interactive"), value: text("0") },
        GlobalStepView::Write { name: text("::argv"), value: Seq::empty() },
        GlobalStepView::Write { name: text("::argv0"), value: Seq::empty() },
        GlobalStepView::Write { name: text("::argc"), value: text("0") },
    ] + host_steps(h)
}

/// The steps that take from a safe interpreter what tells of its surroundings.
pub open spec fn scrub_steps(keys: Seq<Seq<u8>>, paths: Seq<Seq<u8>>) -> Seq<GlobalStepView> {
    element_unsets(text("::tcl_platform"), keys).push(GlobalStepView::Unset(text("::env")))
        + unsets(paths)
}

fn add_step(out: &mut Vec<GlobalStep>, step: GlobalStep)
    ensures
        step_views(final(out)@) == step_views(old(out)@).push(step@),
{
    out.push(step);
    assert(step_views(out@) =~= step_views(old(out)@).push(step@));
}

fn write_step(name: &str, value: &[u8]) -> (s: GlobalStep)
    ensures
        s@ == (GlobalStepView::Write { name: text(name), value: value@ }),
{
    GlobalStep::Write { name: lit(name), value: copied(value) }
}

fn global_of(name: &[u8]) -> (r: Vec<u8>)
    ensures
        r@ == global_name(name@),
{
    let mut out = lit("::");
    append(&mut out, name);
    out
}

fn add_raw_unsets(out: &mut Vec<GlobalStep>, names: &[Vec<u8>])
    ensures
        step_views(final(out)@) == step_views(old(out)@) + raw_unsets(views(names@)),
{
    let ghost start = step_views(out@);
    let ghost all = raw_unsets(views(names@));
    let mut i: usize = 0;
    assert(start =~= start + all.take(0));
    while i < names.len()
        invariant
            i <= names@.len(),
            all == raw_unsets(views(names@)),
            step_views(out@) == start + all.take(i as int),
        decreases names@.len() - i,
    {
        add_step(out, GlobalStep::UnsetRaw(global_of(&names[i])));
        assert(all.take(i + 1) =~= all.take(i as int).push(all[i as int]));
        assert(step_views(out@) =~= start + all.take(i + 1));
        i = i + 1;
    }
    assert(all.take(i as int) =~= all);
}

fn add_unsets(out: &mut Vec<GlobalStep>, names: &[Vec<u8>])
    ensures
        step_views(final(out)@) == step_views(old(out)@) + unsets(views(names@)),
{
    let ghost start = step_views(out@);
    let ghost all = unsets(views(names@));
    let mut i: usize = 0;
    assert(start =~= start + all.take(0));
    while i < names.len()
        invariant
            i <= names@.len(),
            all == unsets(views(names@)),
            step_views(out@) == start + all.take(i as int),
        decreases names@.len() - i,
    {
        add_step(out, GlobalStep::Unset(global_of(&names[i])));
        assert(all.take(i + 1) =~= all.take(i as int).push(all[i as int]));
        assert(step_views(out@) =~= start + all.take(i + 1));
        i = i + 1;
    }
    assert(all.take(i as int) =~= all);
}

fn add_elements(out: &mut Vec<GlobalStep>, array: &str, ps: &[Pair])
    ensures
        step_views(final(out)@) == step_views(old(out)@) + raw_elements(text(array), ps@),
{
    let ghost start = step_views(out@);
    let ghost all = raw_elements(text(array), ps@);
    let mut i: usize = 0;
    assert(start =~= start + all.take(0));
    while i < ps.len()
        invariant
            i <= ps@.len(),
            all == raw_elements(text(array), ps@),
            step_views(out@) == start + all.take(i as int),
        decreases ps@.len() - i,
    {
        add_step(
            out,
            GlobalStep::WriteElementRaw {
                array: lit(array),
                key: copied(&ps[i].key),
                value: copied(&ps[i].value),
            },
        );
        assert(all.take(i + 1) =~= all.take(i as int).push(all[i as int]));
        assert(step_views(out@) =~= start + all.take(i + 1));
        i = i + 1;
    }
    assert(all.take(i as int) =~= all);
}

fn add_release(out: &mut Vec<GlobalStep>, version: &[u8], patchlevel: &[u8])
    ensures
        step_views(final(out)@) == step_views(old(out)@) + release_steps(version@, patchlevel@),
{
    let ghost start = step_views(out@);
    add_step(out, write_step("::tcl_version", version));
    add_step(out, write_step("::tcl_patchLevel", patchlevel));
    assert(step_views(out@) =~= start + release_steps(version@, patchlevel@));
}

fn add_host(out: &mut Vec<GlobalStep>, h: &HostGlobals)
    ensures
        step_views(final(out)@) == step_views(old(out)@) + host_steps(*h),
{
    let ghost start = step_views(out@);
    add_raw_unsets(out, &h.arrays);
    add_raw_unsets(out, &h.paths);
    add_step(out, GlobalStep::MakeArray(lit("::tcl_platform")));
    add_step(out, GlobalStep::MakeArray(lit("::env")));
    add_step(out, GlobalStep::WriteRaw { name: lit("::tcl_library"), value: copied(&h.library) });
    let nothing: Vec<u8> = Vec::new();
    assert(nothing@ =~= Seq::empty());
    add_step(out, GlobalStep::WriteRaw { name: lit("::auto_path"), value: nothing });
    add_elements(out, "::tcl_platform", &h.platform);
    add_elements(out, "::env", &h.environment);
    assert(step_views(out@) =~= start + host_steps(*h));
}

/// The steps that make the variables report the release.
pub fn write_release_globals(version: &[u8], patchlevel: &[u8]) -> (r: Vec<GlobalStep>)
    ensures
        step_views(r@) == release_steps(version@, patchlevel@),
{
    let mut out: Vec<GlobalStep> = Vec::new();
    add_release(&mut out, version, patchlevel);
    assert(step_views(out@) =~= release_steps(version@, patchlevel@));
    out
}

/// The steps that make the variables tell of new surroundings.
pub fn rebootstrap_host_globals(h: &HostGlobals) -> (r: Vec<GlobalStep>)
    ensures
        step_views(r@) == host_steps(*h),
{
    let mut out: Vec<GlobalStep> = Vec::new();
    add_host(&mut out, h);
    assert(step_views(out@) =~= host_steps(*h));
    out
}

/// The steps that write the variables of a new interpreter.
pub fn set_startup_globals(version: &[u8], patchlevel: &[u8], h: &HostGlobals) -> (r: Vec<
    GlobalStep,
>)
    ensures
        step_views(r@) == startup_steps(version@, patchlevel@, *h),
{
    let mut out: Vec<GlobalStep> = Vec::new();
    add_release(&mut out, version, patchlevel);
    let zero = lit("0");
    let nothing: Vec<u8> = Vec::new();
    assert(nothing@ =~= Seq::empty());
    add_step(&mut out, write_step("::tcl_interactive", &zero));
    add_step(&mut out, write_step("::argv", &nothing));
    add_step(&mut out, write_step("::argv0", &nothing));
    add_step(&mut out, write_step("::argc", &zero));
    add_host(&mut out, h);
    assert(step_views(out@) =~= startup_steps(version@, patchlevel@, *h));
    out
}

fn add_scrub(out: &mut Vec<GlobalStep>, keys: &[Vec<u8>], paths: &[Vec<u8>])
    ensures
        step_views(final(out)@) == step_views(old(out)@) + scrub_steps(views(keys@), views(paths@)),
{
    let ghost start = step_views(out@);
    let ghost all = element_unsets(text("::tcl_platform"), views(keys@));
    let mut i: usize = 0;
    assert(start =~= start + all.take(0));
    while i < keys.len()
        invariant
            i <= keys@.len(),
            all == element_unsets(text("::tcl_platform"), views(keys@)),
            step_views(out@) == start + all.take(i as int),
        decreases keys@.len() - i,
    {
        add_step(
            out,
            GlobalStep::UnsetElement { array: lit("::tcl_platform"), key: copied(&keys[i]) },
        );
        assert(all.take(i + 1) =~= all.take(i as int).push(all[i as int]));
        assert(step_views(out@) =~= start + all.take(i + 1));
        i = i + 1;
    }
    assert(all.take(i as int) =~= all);
    add_step(out, GlobalStep::Unset(lit("::env")));
    add_unsets(out, paths);
    assert(step_views(out@) =~= start + scrub_steps(views(keys@), views(paths@)));
}

/// The steps that take from a safe interpreter what tells of its surroundings:
/// `keys` are the elements of `tcl_platform` that do, `paths` the variables that
/// hold paths.
pub fn scrub_host_globals_for_safe(keys: &[Vec<u8>], paths: &[Vec<u8>]) -> (r: Vec<GlobalStep>)
    ensures
        step_views(r@) == scrub_steps(views(keys@), views(paths@)),
{
    let mut out: Vec<GlobalStep> = Vec::new();
    add_scrub(&mut out, keys, paths);
    assert(step_views(out@) =~= scrub_steps(views(keys@), views(paths@)));
    out
}

impl Interp {
    /// A new interpreter in the surroundings `h`, and the steps that write its
    /// variables.
    pub fn with_host(version: &[u8], patchlevel: &[u8], h: &HostGlobals) -> (r: (
        Interp,
        Vec<GlobalStep>,
    ))
        ensures
            fresh_state(r.0.state),
            r.0.children@.len() == 0,
            step_views(r.1@) == startup_steps(version@, patchlevel@, *h),
    {
        (Interp::new(), set_startup_globals(version, patchlevel, h))
    }

    /// Gives the interpreter other surroundings. Returns the steps that make its
    /// variables tell of them; a safe interpreter is scrubbed again, of the
    /// elements `keys` of `tcl_platform` and of the rest.
    pub fn set_host(&mut self, h: &HostGlobals, keys: &[Vec<u8>]) -> (r: Vec<GlobalStep>)
        ensures
            step_views(r@) == if old(self).state.is_safe {
                host_steps(*h) + scrub_steps(views(keys@), views(h.paths@))
            } else {
                host_steps(*h)
            },
            final(self).state.invalidations@ == old(self).state.invalidations@.push(
                GuardDomain::Interpreter,
            ),
            *final(self) == (Interp {
                state: InterpState {
                    invalidations: final(self).state.invalidations,
                    ..old(self).state
                },
                ..*old(self)
            }),
    {
        self.invalidate_interpreter_policy();
        let mut out = rebootstrap_host_globals(h);
        if self.state.is_safe {
            add_scrub(&mut out, keys, &h.paths);
        }
        out
    }
}

/// A safe interpreter holds none of the variables that tell of its surroundings:
/// each of them is among those that are removed.
pub proof fn a_safe_interpreter_tells_nothing(keys: Seq<Seq<u8>>, paths: Seq<Seq<u8>>)
    ensures
        forall|i: int|
            0 <= i < keys.len() ==> scrub_steps(keys, paths).contains(
                (GlobalStepView::UnsetElement {
                    array: text("::tcl_platform"),
                    key: #[trigger] keys[i],
                }),
            ),
        scrub_steps(keys, paths).contains(GlobalStepView::Unset(text("::env"))),
        forall|i: int|
            0 <= i < paths.len() ==> scrub_steps(keys, paths).contains(
                GlobalStepView::Unset(global_name(#[trigger] paths[i])),
            ),
{
    let all = scrub_steps(keys, paths);
    assert forall|i: int| 0 <= i < keys.len() implies all.contains(
        (GlobalStepView::UnsetElement { array: text("::tcl_platform"), key: #[trigger] keys[i] }),
    ) by {
        assert(all[i] == element_unsets(text("::tcl_platform"), keys)[i]);
    }
    assert(all[keys.len() as int] == GlobalStepView::Unset(text("::env")));
    assert forall|i: int| 0 <= i < paths.len() implies all.contains(
        GlobalStepView::Unset(global_name(#[trigger] paths[i])),
    ) by {
        assert(all[keys.len() + 1 + i] == unsets(paths)[i]);
    }
}

/// What tells of new surroundings: the arrays and paths of the old ones are
/// removed before anything is written, and then the library and each setting of
/// the platform and of the environment are written, under their own keys.
pub proof fn new_surroundings_replace_the_old(h: HostGlobals)
    ensures
        ({
            let steps = host_steps(h);
            let gone = h.arrays@.len() + h.paths@.len();
            &&& forall|i: int|
                0 <= i < h.arrays@.len() ==> #[trigger] steps[i] == GlobalStepView::UnsetRaw(
                    text("::") + h.arrays@[i]@,
                )
            &&& forall|i: int|
                0 <= i < h.paths@.len() ==> steps[h.arrays@.len() + i]
                    == GlobalStepView::UnsetRaw(text("::") + (#[trigger] h.paths@[i])@)
            &&& forall|i: int| gone <= i < steps.len() ==> !(#[trigger] steps[i] is UnsetRaw)
            &&& steps.contains(
                (GlobalStepView::WriteRaw { name: text("::tcl_library"), value: h.library@ }),
            )
            &&& forall|i: int|
                0 <= i < h.platform@.len() ==> steps.contains(
                    (GlobalStepView::WriteElementRaw {
                        array: text("::tcl_platform"),
                        key: (#[trigger] h.platform@[i]).key@,
                        value: h.platform@[i].value@,
                    }),
                )
            &&& forall|i: int|
                0 <= i < h.environment@.len() ==> steps.contains(
                    (GlobalStepView::WriteElementRaw {
                        array: text("::env"),
                        key: (#[trigger] h.environment@[i]).key@,
                        value: h.environment@[i].value@,
                    }),
                )
        }),
{
    let steps = host_steps(h);
    let a = h.arrays@.len() as int;
    let gone = a + h.paths@.len();
    let p = h.platform@.len() as int;
    assert(views(h.arrays@).len() == a);
    assert(views(h.paths@).len() == h.paths@.len());
    assert(steps[gone + 2] == (GlobalStepView::WriteRaw {
        name: text("::tcl_library"),
        value: h.library@,
    }));
    assert forall|i: int| 0 <= i < p implies steps.contains(
        (GlobalStepView::WriteElementRaw {
            array: text("::tcl_platform"),
            key: (#[trigger] h.platform@[i]).key@,
            value: h.platform@[i].value@,
        }),
    ) by {
        assert(steps[gone + 4 + i] == (GlobalStepView::WriteElementRaw {
            array: text("::tcl_platform"),
            key: h.platform@[i].key@,
            value: h.platform@[i].value@,
        }));
    }
    assert forall|i: int| 0 <= i < h.environment@.len() implies steps.contains(
        (GlobalStepView::WriteElementRaw {
            array: text("::env"),
            key: (#[trigger] h.environment@[i]).key@,
            value: h.environment@[i].value@,
        }),
    ) by {
        assert(steps[gone + 4 + p + i] == (GlobalStepView::WriteElementRaw {
            array: text("::env"),
            key: h.environment@[i].key@,
            value: h.environment@[i].value@,
        }));
    }
}

/// A new interpreter reports the release it follows before anything else, and
/// has no arguments.
pub proof fn a_new_interpreter_reports_its_release(
    version: Seq<u8>,
    patchlevel: Seq<u8>,
    h: HostGlobals,
)
    ensures
        ({
            let steps = startup_steps(version, patchlevel, h);
            &&& steps[0] == (GlobalStepView::Write {
                name: text("::tcl_version"),
                value: version,
            })
            &&& steps[1] == (GlobalStepView::Write {
                name: text("::tcl_patchLevel"),
                value: patchlevel,
            })
            &&& steps.contains(
                (GlobalStepView::Write { name: text("::argv"), value: Seq::empty() }),
            )
            &&& steps.contains((GlobalStepView::Write { name: text("::argc"), value: text("0") }))
            &&& steps.contains(
                (GlobalStepView::Write { name: text("::argv0"), value: Seq::empty() }),
            )
            &&& steps.contains(
                (GlobalStepView::Write { name: text("::tcl_interactive"), value: text("0") }),
            )
            &&& steps.skip(6) == host_steps(h)
        }),
{
    let steps = startup_steps(version, patchlevel, h);
    assert(steps[2] == (GlobalStepView::Write {
        name: text("::tcl_interactive"),
        value: text("0"),
    }));
    assert(steps[3] == (GlobalStepView::Write { name: text("::argv"), value: Seq::empty() }));
    assert(steps[4] == (GlobalStepView::Write { name: text("::argv0"), value: Seq::empty() }));
    assert(steps[5] == (GlobalStepView::Write { name: text("::argc"), value: text("0") }));
    assert(steps.skip(6) =~= host_steps(h));
}

} // verus!
