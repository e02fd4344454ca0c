//! The term-processing pipeline.
//!
//! One invocation runs the stages parse, resolve and infer in order,
//! each short-circuiting the rest on failure. The stages themselves
//! belong to the external term-processing engine; this module owns the
//! control flow around them. An [`Invocation`] is a state machine: the
//! driver performs each requested [`Action`] (an engine call or a
//! rendering request) and feeds the outcome back as an [`Event`]. Every
//! stage that succeeds has its output rendered before the next stage
//! runs, an aborting stage contributes exactly one diagnostic, and
//! `Uninferrable` is a reported result, never a failure.

use vstd::prelude::*;
use vstd::string::StrSliceExecFns;
use vstd::string::StringExecFns;

verus! {

/// Marker for the group of commands operating on the System F engine.
pub struct SysF;

// ---------------------------------------------------------------------
// Markup trimming
// ---------------------------------------------------------------------
/// How many backticks the text starts with.
pub open spec fn lead_ticks(s: Seq<char>) -> int
    decreases s.len(),
{
    if s.len() == 0 {
        0
    } else if s[0] != '`' {
        0
    } else {
        1 + lead_ticks(s.drop_first())
    }
}

/// How many backticks the text ends with.
pub open spec fn trail_ticks(s: Seq<char>) -> int
    decreases s.len(),
{
    if s.len() == 0 {
        0
    } else if s[s.len() - 1] != '`' {
        0
    } else {
        1 + trail_ticks(s.drop_last())
    }
}

/// The text with its delimiting backtick markup removed.
pub open spec fn trim_spec(s: Seq<char>) -> Seq<char> {
    if lead_ticks(s) == s.len() {
        Seq::empty()
    } else {
        s.subrange(lead_ticks(s), s.len() - trail_ticks(s))
    }
}

proof fn lemma_lead_ticks_from_prefix(s: Seq<char>, k: int)
    requires
        0 <= k <= s.len(),
        forall|j: int| 0 <= j < k ==> s[j] == '`',
        k < s.len() ==> s[k] != '`',
    ensures
        lead_ticks(s) == k,
    decreases s.len(),
{
    if s.len() == 0 {
    } else if k == 0 {
    } else {
        assert(s[0] == '`');
        assert forall|j: int| 0 <= j < k - 1 implies s.drop_first()[j] == '`' by {
            assert(s.drop_first()[j] == s[j + 1]);
        }
        if k - 1 < s.drop_first().len() {
            assert(s.drop_first()[k - 1] == s[k]);
        }
        lemma_lead_ticks_from_prefix(s.drop_first(), k - 1);
    }
}

proof fn lemma_trail_ticks_from_suffix(s: Seq<char>, k: int)
    requires
        0 <= k <= s.len(),
        forall|j: int| s.len() - k <= j < s.len() ==> s[j] == '`',
        k < s.len() ==> s[s.len() - k - 1] != '`',
    ensures
        trail_ticks(s) == k,
    decreases s.len(),
{
    if s.len() == 0 {
    } else if k == 0 {
    } else {
        assert(s[s.len() - 1] == '`');
        assert forall|j: int|
            s.drop_last().len() - (k - 1) <= j < s.drop_last().len() implies s.drop_last()[j]
            == '`' by {
            assert(s.drop_last()[j] == s[j]);
        }
        if k - 1 < s.drop_last().len() {
            assert(s.drop_last()[s.drop_last().len() - (k - 1) - 1] == s[s.len() - k - 1]);
        }
        lemma_trail_ticks_from_suffix(s.drop_last(), k - 1);
    }
}

/// Remove the delimiting backtick markup around a raw term, as the
/// parse stage sees it.
pub fn trim_markup<'a>(s: &'a str) -> (t: &'a str)
    ensures
        t@ == trim_spec(s@),
{
    let len = s.unicode_len();
    let mut i: usize = 0;
    while i < len && s.get_char(i) == '`'
        invariant
            len == s@.len(),
            i <= len,
            forall|j: int| 0 <= j < i ==> s@[j] == '`',
        decreases len - i,
    {
        i += 1;
    }
    proof {
        lemma_lead_ticks_from_prefix(s@, i as int);
    }
    if i == len {
        let empty = "";
        proof {
            reveal_strlit("");
            assert(empty@ =~= Seq::<char>::empty());
        }
        empty
    } else {
        let mut j = len;
        while j > i && s.get_char(j - 1) == '`'
            invariant
                len == s@.len(),
                i <= j <= len,
                i < len,
                lead_ticks(s@) == i,
                s@[i as int] != '`',
                forall|k: int| j <= k < len ==> s@[k] == '`',
            decreases j,
        {
            j -= 1;
        }
        proof {
            assert(j > i);
            lemma_trail_ticks_from_suffix(s@, len - j as int);
        }
        s.substring_char(i, j)
    }
}

// ---------------------------------------------------------------------
// Replies
// ---------------------------------------------------------------------
/// One block of a reply: a title and a body.
#[derive(Debug, Clone)]
pub struct Section {
    pub title: String,
    pub body: String,
}

impl View for Section {
    type V = (Seq<char>, Seq<char>);

    open spec fn view(&self) -> (Seq<char>, Seq<char>) {
        (self.title@, self.body@)
    }
}

/// Text presented as a fixed-width block.
pub open spec fn fenced(s: Seq<char>) -> Seq<char> {
    "```\n"@ + s + "\n```"@
}

/// The diagnostic block shown when the parse stage rejects the input.
pub open spec fn syntax_error_section(d: Seq<char>) -> (Seq<char>, Seq<char>) {
    ("Syntax Error"@, fenced(d))
}

/// The rendering of the parsed term.
pub open spec fn parsed_section(t: Seq<char>) -> (Seq<char>, Seq<char>) {
    ("Parsed Term"@, fenced(t))
}

/// The diagnostic block shown when resolution fails; it carries no
/// structured detail by design.
pub open spec fn resolution_error_section() -> (Seq<char>, Seq<char>) {
    ("Resolution Error"@, "(More detail in resolution errors is to come soon.)"@)
}

/// The rendering of the resolved term.
pub open spec fn resolved_section(t: Seq<char>) -> (Seq<char>, Seq<char>) {
    ("Resolved Term"@, fenced(t))
}

/// The rendering of the inferred type.
pub open spec fn inferred_section(t: Seq<char>) -> (Seq<char>, Seq<char>) {
    ("Inferred Type"@, fenced(t))
}

/// The block reporting that the term lies outside the inferable
/// fragment: a literal message, not a failure.
pub open spec fn uninferrable_section() -> (Seq<char>, Seq<char>) {
    ("Inferred Type"@, "Uninferrable."@)
}

/// The debug rendering of the final type context.
pub open spec fn context_section(t: Seq<char>) -> (Seq<char>, Seq<char>) {
    ("TyCtxt"@, fenced(t))
}

fn fence(s: &str) -> (r: String)
    ensures
        r@ == fenced(s@),
{
    let mut r = String::from_str("```\n");
    r.append(s);
    r.append("\n```");
    proof {
        assert(r@ =~= fenced(s@));
    }
    r
}

fn section(title: &str, body: String) -> (sec: Section)
    ensures
        sec@ == (title@, body@),
{
    Section { title: String::from_str(title), body }
}

// ---------------------------------------------------------------------
// The invocation state machine
// ---------------------------------------------------------------------
/// Which composition of stages an invocation runs.
#[derive(Clone, Copy, Debug, PartialEq, Eq, Structural)]
pub enum EntryPoint {
    ParseOnly,
    ParseResolve,
    ParseResolveInfer,
}

/// What the invocation is waiting on.
#[derive(Clone, Copy, Debug, PartialEq, Eq, Structural)]
pub enum Stage {
    AwaitParse,
    AwaitParsedRender,
    AwaitResolve,
    AwaitResolvedRender,
    AwaitInfer,
    AwaitInferredRender,
    AwaitContextRender,
    Done,
}

/// An outcome the driver reports back to the invocation: the result of
/// an engine stage, or the text answering a rendering request.
#[derive(Debug, Clone, PartialEq, Eq)]
pub enum Event {
    ParseFailed(String),
    ParseOk,
    ResolveFailed,
    ResolveOk,
    InferOk,
    Uninferrable,
    Rendered(String),
}

/// What the invocation asks the driver to do next. `Parse` carries the
/// trimmed input; the `Render*` actions request a rendering of the
/// latest stage output from the rendering service; `Done` ends the
/// invocation; `Ignored` answers an event that does not belong to the
/// current stage.
#[derive(Debug, Clone, PartialEq, Eq)]
pub enum Action {
    Parse(String),
    RenderParsed,
    Resolve,
    RenderResolved,
    Infer,
    RenderInferred,
    RenderContext,
    Done,
    Ignored,
}

/// The abstract state of an invocation.
#[verifier::ext_equal]
pub struct InvModel {
    pub entry: EntryPoint,
    pub stage: Stage,
    pub sections: Seq<(Seq<char>, Seq<char>)>,
    pub failed: bool,
}

/// The state every invocation begins in.
pub open spec fn start_model(entry: EntryPoint) -> InvModel {
    InvModel { entry, stage: Stage::AwaitParse, sections: Seq::empty(), failed: false }
}

/// The whole transition relation of an invocation, as a function: from
/// a state and an event to the next state and the next action.
pub open spec fn step_model(m: InvModel, ev: Event) -> (InvModel, Action) {
    match (m.stage, ev) {
        (Stage::AwaitParse, Event::ParseFailed(d)) => (
            InvModel {
                stage: Stage::Done,
                failed: true,
                sections: m.sections.push(syntax_error_section(d@)),
                ..m
            },
            Action::Done,
        ),
        (Stage::AwaitParse, Event::ParseOk) => (
            InvModel { stage: Stage::AwaitParsedRender, ..m },
            Action::RenderParsed,
        ),
        (Stage::AwaitParsedRender, Event::Rendered(t)) => {
            let m2 = InvModel { sections: m.sections.push(parsed_section(t@)), ..m };
            if m.entry is ParseOnly {
                (InvModel { stage: Stage::Done, ..m2 }, Action::Done)
            } else {
                (InvModel { stage: Stage::AwaitResolve, ..m2 }, Action::Resolve)
            }
        },
        (Stage::AwaitResolve, Event::ResolveFailed) => (
            InvModel {
                stage: Stage::Done,
                failed: true,
                sections: m.sections.push(resolution_error_section()),
                ..m
            },
            Action::Done,
        ),
        (Stage::AwaitResolve, Event::ResolveOk) => (
            InvModel { stage: Stage::AwaitResolvedRender, ..m },
            Action::RenderResolved,
        ),
        (Stage::AwaitResolvedRender, Event::Rendered(t)) => {
            let m2 = InvModel { sections: m.sections.push(resolved_section(t@)), ..m };
            if m.entry is ParseResolve {
                (InvModel { stage: Stage::Done, ..m2 }, Action::Done)
            } else {
                (InvModel { stage: Stage::AwaitInfer, ..m2 }, Action::Infer)
            }
        },
        (Stage::AwaitInfer, Event::InferOk) => (
            InvModel { stage: Stage::AwaitInferredRender, ..m },
            Action::RenderInferred,
        ),
        (Stage::AwaitInfer, Event::Uninferrable) => (
            InvModel {
                stage: Stage::AwaitContextRender,
                sections: m.sections.push(uninferrable_section()),
                ..m
            },
            Action::RenderContext,
        ),
        (Stage::AwaitInferredRender, Event::Rendered(t)) => (
            InvModel {
                stage: Stage::AwaitContextRender,
                sections: m.sections.push(inferred_section(t@)),
                ..m
            },
            Action::RenderContext,
        ),
        (Stage::AwaitContextRender, Event::Rendered(t)) => (
            InvModel { stage: Stage::Done, sections: m.sections.push(context_section(t@)), ..m },
            Action::Done,
        ),
        _ => (m, Action::Ignored),
    }
}

/// One running invocation: the entry point it serves, the stage it
/// waits on, the reply sections gathered so far in stage order, and
/// whether a stage aborted it.
#[derive(Debug)]
pub struct Invocation {
    pub entry: EntryPoint,
    pub stage: Stage,
    pub sections: Vec<Section>,
    pub failed: bool,
}

impl View for Invocation {
    type V = InvModel;

    open spec fn view(&self) -> InvModel {
        InvModel {
            entry: self.entry,
            stage: self.stage,
            sections: self.sections@.map_values(|s: Section| s@),
            failed: self.failed,
        }
    }
}

impl Invocation {
    /// Feed one outcome into the invocation; it answers with the next
    /// action for the driver. The behaviour is exactly [`step_model`].
    pub fn step(&mut self, ev: Event) -> (act: Action)
        ensures
            final(self)@ == step_model(old(self)@, ev).0,
            act == step_model(old(self)@, ev).1,
    {
        let ghost ev0 = ev;
        match (self.stage, ev) {
            (Stage::AwaitParse, Event::ParseFailed(d)) => {
                let body = fence(d.as_str());
                self.sections.push(section("Syntax Error", body));
                self.stage = Stage::Done;
                self.failed = true;
                proof {
                    assert(self@ =~= step_model(old(self)@, ev0).0);
                }
                Action::Done
            },
            (Stage::AwaitParse, Event::ParseOk) => {
                self.stage = Stage::AwaitParsedRender;
                proof {
                    assert(self@ =~= step_model(old(self)@, ev0).0);
                }
                Action::RenderParsed
            },
            (Stage::AwaitParsedRender, Event::Rendered(t)) => {
                let body = fence(t.as_str());
                self.sections.push(section("Parsed Term", body));
                if self.entry == EntryPoint::ParseOnly {
                    self.stage = Stage::Done;
                    proof {
                        assert(self@ =~= step_model(old(self)@, ev0).0);
                    }
                    Action::Done
                } else {
                    self.stage = Stage::AwaitResolve;
                    proof {
                        assert(self@ =~= step_model(old(self)@, ev0).0);
                    }
                    Action::Resolve
                }
            },
            (Stage::AwaitResolve, Event::ResolveFailed) => {
                self.sections.push(
                    section(
                        "Resolution Error",
                        String::from_str("(More detail in resolution errors is to come soon.)"),
                    ),
                );
                self.stage = Stage::Done;
                self.failed = true;
                proof {
                    assert(self@ =~= step_model(old(self)@, ev0).0);
                }
                Action::Done
            },
            (Stage::AwaitResolve, Event::ResolveOk) => {
                self.stage = Stage::AwaitResolvedRender;
                proof {
                    assert(self@ =~= step_model(old(self)@, ev0).0);
                }
                Action::RenderResolved
            },
            (Stage::AwaitResolvedRender, Event::Rendered(t)) => {
                let body = fence(t.as_str());
                self.sections.push(section("Resolved Term", body));
                if self.entry == EntryPoint::ParseResolve {
                    self.stage = Stage::Done;
                    proof {
                        assert(self@ =~= step_model(old(self)@, ev0).0);
                    }
                    Action::Done
                } else {
                    self.stage = Stage::AwaitInfer;
                    proof {
                        assert(self@ =~= step_model(old(self)@, ev0).0);
                    }
                    Action::Infer
                }
            },
            (Stage::AwaitInfer, Event::InferOk) => {
                self.stage = Stage::AwaitInferredRender;
                proof {
                    assert(self@ =~= step_model(old(self)@, ev0).0);
                }
                Action::RenderInferred
            },
            (Stage::AwaitInfer, Event::Uninferrable) => {
                self.sections.push(
                    section("Inferred Type", String::from_str("Uninferrable.")),
                );
                self.stage = Stage::AwaitContextRender;
                proof {
                    assert(self@ =~= step_model(old(self)@, ev0).0);
                }
                Action::RenderContext
            },
            (Stage::AwaitInferredRender, Event::Rendered(t)) => {
                let body = fence(t.as_str());
                self.sections.push(section("Inferred Type", body));
                self.stage = Stage::AwaitContextRender;
                proof {
                    assert(self@ =~= step_model(old(self)@, ev0).0);
                }
                Action::RenderContext
            },
            (Stage::AwaitContextRender, Event::Rendered(t)) => {
                let body = fence(t.as_str());
                self.sections.push(section("TyCtxt", body));
                self.stage = Stage::Done;
                proof {
                    assert(self@ =~= step_model(old(self)@, ev0).0);
                }
                Action::Done
            },
            (_, _) => {
                proof {
                    assert(self@ =~= step_model(old(self)@, ev0).0);
                }
                Action::Ignored
            },
        }
    }
}

fn begin(entry: EntryPoint, input: &str) -> (r: (Invocation, Action))
    ensures
        r.0@ == start_model(entry),
        r.1 matches Action::Parse(t) && t@ == trim_spec(input@),
{
    let trimmed = trim_markup(input);
    let inv = Invocation { entry, stage: Stage::AwaitParse, sections: Vec::new(), failed: false };
    proof {
        assert(inv@ =~= start_model(entry));
    }
    (inv, Action::Parse(String::from_str(trimmed)))
}

/// Begin a parse-only invocation: the first action hands the driver
/// the input with its delimiting markup trimmed.
pub fn parse(input: &str) -> (r: (Invocation, Action))
    ensures
        r.0@ == start_model(EntryPoint::ParseOnly),
        r.1 matches Action::Parse(t) && t@ == trim_spec(input@),
{
    begin(EntryPoint::ParseOnly, input)
}

/// Begin a parse-and-resolve invocation.
pub fn resolve(input: &str) -> (r: (Invocation, Action))
    ensures
        r.0@ == start_model(EntryPoint::ParseResolve),
        r.1 matches Action::Parse(t) && t@ == trim_spec(input@),
{
    begin(EntryPoint::ParseResolve, input)
}

/// Begin a full parse-resolve-infer invocation.
pub fn infer(input: &str) -> (r: (Invocation, Action))
    ensures
        r.0@ == start_model(EntryPoint::ParseResolveInfer),
        r.1 matches Action::Parse(t) && t@ == trim_spec(input@),
{
    begin(EntryPoint::ParseResolveInfer, input)
}

// ---------------------------------------------------------------------
// Laws of whole invocations
// ---------------------------------------------------------------------
/// The state after a whole sequence of events.
pub open spec fn run_model(m: InvModel, evs: Seq<Event>) -> InvModel
    decreases evs.len(),
{
    if evs.len() == 0 {
        m
    } else {
        run_model(step_model(m, evs[0]).0, evs.drop_first())
    }
}

/// A finished invocation stays as it is, whatever else arrives.
pub proof fn lemma_done_absorbs(m: InvModel, evs: Seq<Event>)
    requires
        m.stage is Done,
    ensures
        run_model(m, evs) == m,
    decreases evs.len(),
{
    if evs.len() > 0 {
        assert(step_model(m, evs[0]).0 == m);
        lemma_done_absorbs(m, evs.drop_first());
    }
}

proof fn lemma_run_cons(m: InvModel, ev: Event, evs: Seq<Event>)
    ensures
        run_model(m, seq![ev] + evs) == run_model(step_model(m, ev).0, evs),
{
    assert((seq![ev] + evs)[0] == ev);
    assert((seq![ev] + evs).drop_first() =~= evs);
}

/// Law: invalid syntax on any entry point. The reply is exactly the
/// syntax-error report — no parsed, resolved or inferred output ever
/// appears — and the invocation is aborted, whatever arrives later.
pub proof fn lemma_invalid_syntax_aborts(entry: EntryPoint, d: String, rest: Seq<Event>)
    ensures
        ({
            let fin = run_model(start_model(entry), seq![Event::ParseFailed(d)] + rest);
            &&& fin.stage is Done
            &&& fin.failed
            &&& fin.sections == seq![syntax_error_section(d@)]
        }),
{
    let m0 = start_model(entry);
    lemma_run_cons(m0, Event::ParseFailed(d), rest);
    let m1 = step_model(m0, Event::ParseFailed(d)).0;
    assert(m1.sections =~= seq![syntax_error_section(d@)]);
    lemma_done_absorbs(m1, rest);
}

/// Law: a parse-only invocation on input the engine parses shows the
/// parsed term's rendering and nothing else, and does not fail.
pub proof fn lemma_parse_only_success(p: String, rest: Seq<Event>)
    ensures
        ({
            let fin = run_model(
                start_model(EntryPoint::ParseOnly),
                seq![Event::ParseOk, Event::Rendered(p)] + rest,
            );
            &&& fin.stage is Done
            &&& !fin.failed
            &&& fin.sections == seq![parsed_section(p@)]
        }),
{
    let m0 = start_model(EntryPoint::ParseOnly);
    let e0 = Event::ParseOk;
    let e1 = Event::Rendered(p);
    assert(seq![e0, e1] + rest =~= seq![e0] + (seq![e1] + rest));
    lemma_run_cons(m0, e0, seq![e1] + rest);
    let m1 = step_model(m0, e0).0;
    lemma_run_cons(m1, e1, rest);
    let m2 = step_model(m1, e1).0;
    assert(m2.sections =~= seq![parsed_section(p@)]);
    lemma_done_absorbs(m2, rest);
}

/// Law: valid but unresolvable input on the parse-and-resolve entry
/// point. The parsed rendering is shown, the resolution error is
/// reported, and no resolved term appears.
pub proof fn lemma_unresolvable_reports(p: String, rest: Seq<Event>)
    ensures
        ({
            let fin = run_model(
                start_model(EntryPoint::ParseResolve),
                seq![Event::ParseOk, Event::Rendered(p), Event::ResolveFailed] + rest,
            );
            &&& fin.stage is Done
            &&& fin.failed
            &&& fin.sections == seq![parsed_section(p@), resolution_error_section()]
        }),
{
    let m0 = start_model(EntryPoint::ParseResolve);
    let e0 = Event::ParseOk;
    let e1 = Event::Rendered(p);
    let e2 = Event::ResolveFailed;
    assert(seq![e0, e1, e2] + rest =~= seq![e0] + (seq![e1] + (seq![e2] + rest)));
    lemma_run_cons(m0, e0, seq![e1] + (seq![e2] + rest));
    let m1 = step_model(m0, e0).0;
    lemma_run_cons(m1, e1, seq![e2] + rest);
    let m2 = step_model(m1, e1).0;
    lemma_run_cons(m2, e2, rest);
    let m3 = step_model(m2, e2).0;
    assert(m3.sections =~= seq![parsed_section(p@), resolution_error_section()]);
    lemma_done_absorbs(m3, rest);
}

/// Law: a full inference run. The reply shows, in stage order, the
/// parsed term, the resolved term, the inferred type and the final
/// type context, and the invocation does not fail.
pub proof fn lemma_full_inference_run(p: String, c: String, t: String, x: String, rest: Seq<Event>)
    ensures
        ({
            let fin = run_model(
                start_model(EntryPoint::ParseResolveInfer),
                seq![
                    Event::ParseOk,
                    Event::Rendered(p),
                    Event::ResolveOk,
                    Event::Rendered(c),
                    Event::InferOk,
                    Event::Rendered(t),
                    Event::Rendered(x),
                ] + rest,
            );
            &&& fin.stage is Done
            &&& !fin.failed
            &&& fin.sections == seq![
                parsed_section(p@),
                resolved_section(c@),
                inferred_section(t@),
                context_section(x@),
            ]
        }),
{
    let m0 = start_model(EntryPoint::ParseResolveInfer);
    let e0 = Event::ParseOk;
    let e1 = Event::Rendered(p);
    let e2 = Event::ResolveOk;
    let e3 = Event::Rendered(c);
    let e4 = Event::InferOk;
    let e5 = Event::Rendered(t);
    let e6 = Event::Rendered(x);
    let r5 = seq![e6] + rest;
    let r4 = seq![e5] + r5;
    let r3 = seq![e4] + r4;
    let r2 = seq![e3] + r3;
    let r1 = seq![e2] + r2;
    let r0 = seq![e1] + r1;
    assert(seq![e0, e1, e2, e3, e4, e5, e6] + rest =~= seq![e0] + r0);
    lemma_run_cons(m0, e0, r0);
    let m1 = step_model(m0, e0).0;
    lemma_run_cons(m1, e1, r1);
    let m2 = step_model(m1, e1).0;
    lemma_run_cons(m2, e2, r2);
    let m3 = step_model(m2, e2).0;
    lemma_run_cons(m3, e3, r3);
    let m4 = step_model(m3, e3).0;
    lemma_run_cons(m4, e4, r4);
    let m5 = step_model(m4, e4).0;
    lemma_run_cons(m5, e5, r5);
    let m6 = step_model(m5, e5).0;
    lemma_run_cons(m6, e6, rest);
    let m7 = step_model(m6, e6).0;
    assert(m7.sections =~= seq![
        parsed_section(p@),
        resolved_section(c@),
        inferred_section(t@),
        context_section(x@),
    ]);
    lemma_done_absorbs(m7, rest);
}

/// Law: a term outside the inferable fragment. The reply still shows
/// the parsed and resolved renderings, reports the literal
/// `Uninferrable.` message and the type context, and the invocation
/// completes without failing.
pub proof fn lemma_uninferrable_completes(p: String, c: String, x: String, rest: Seq<Event>)
    ensures
        ({
            let fin = run_model(
                start_model(EntryPoint::ParseResolveInfer),
                seq![
                    Event::ParseOk,
                    Event::Rendered(p),
                    Event::ResolveOk,
                    Event::Rendered(c),
                    Event::Uninferrable,
                    Event::Rendered(x),
                ] + rest,
            );
            &&& fin.stage is Done
            &&& !fin.failed
            &&& fin.sections == seq![
                parsed_section(p@),
                resolved_section(c@),
                uninferrable_section(),
                context_section(x@),
            ]
        }),
{
    let m0 = start_model(EntryPoint::ParseResolveInfer);
    let e0 = Event::ParseOk;
    let e1 = Event::Rendered(p);
    let e2 = Event::ResolveOk;
    let e3 = Event::Rendered(c);
    let e4 = Event::Uninferrable;
    let e5 = Event::Rendered(x);
    let r4 = seq![e5] + rest;
    let r3 = seq![e4] + r4;
    let r2 = seq![e3] + r3;
    let r1 = seq![e2] + r2;
    let r0 = seq![e1] + r1;
    assert(seq![e0, e1, e2, e3, e4, e5] + rest =~= seq![e0] + r0);
    lemma_run_cons(m0, e0, r0);
    let m1 = step_model(m0, e0).0;
    lemma_run_cons(m1, e1, r1);
    let m2 = step_model(m1, e1).0;
    lemma_run_cons(m2, e2, r2);
    let m3 = step_model(m2, e2).0;
    lemma_run_cons(m3, e3, r3);
    let m4 = step_model(m3, e3).0;
    lemma_run_cons(m4, e4, r4);
    let m5 = step_model(m4, e4).0;
    lemma_run_cons(m5, e5, rest);
    let m6 = step_model(m5, e5).0;
    assert(m6.sections =~= seq![
        parsed_section(p@),
        resolved_section(c@),
        uninferrable_section(),
        context_section(x@),
    ]);
    lemma_done_absorbs(m6, rest);
}

} // verus!
