use vstd::prelude::*;
use std::sync::Arc;
use crate::dict::Dict;
use crate::extends::ExtendsInternal;
use crate::heap::Heap;
use crate::interp::{
    check_state, outcome_view, run_rel, state_spec, tok_run, LineState, LineStateView, RunError,
    RunFault, StateError, StateFault, Step, StepView,
};
use crate::packages::{import_fold, utf8_lossy, ImplPackage, LanguagePackages};
use crate::parser::lines_view;
use crate::runtime::{end_module_call, ModuleCall};
use crate::structure::{source_lines, source_lines_spec, LeadCode};
use crate::text::views;

verus! {

/// A Lead program: the code of its files by name (the entry file under
/// `:entry`), the commands of its packages, and the default prototypes.
pub struct Application {
    pub code: Dict<LeadCode>,
    pub pkg: LanguagePackages,
    pub extends: Arc<ExtendsInternal>,
}

impl Application {
    /// A program with the given files, no packages and no prototypes.
    pub fn new(structure: Dict<LeadCode>) -> (r: Self)
        ensures
            r.code == structure,
            r.pkg.commands() == Map::<Seq<char>, (Seq<char>, u64)>::empty(),
            r.pkg.inner.wf(),
            r.extends.wf(),
            r.extends.view() == ExtendsInternal::new_view(),
    {
        Application { code: structure, pkg: LanguagePackages::new(), extends: Arc::new(ExtendsInternal::new()) }
    }

    /// Adds a file of Lead code, split into its token lines.
    pub fn add_file(&mut self, name: String, file: &str)
        ensures
            final(self).code.view().dom() == old(self).code.view().dom().insert(name@),
            final(self).code.view()[name@] matches LeadCode::Code(l) && lines_view(l@)
                == source_lines_spec(file@, true),
            forall|k: Seq<char>|
                k != name@ && #[trigger] old(self).code.view().contains_key(k) ==> final(self).code.view()[k] == old(self).code.view()[k],
            final(self).pkg == old(self).pkg,
            final(self).extends == old(self).extends,
    {
        let lines = source_lines(file, true);
        self.code.insert(name, LeadCode::Code(lines));
        proof {
            assert(self.code.view().dom() =~= old(self).code.view().dom().insert(name@));
        }
    }

    /// Adds the commands of a package.
    pub fn add_pkg(&mut self, package: &ImplPackage)
        ensures
            old(self).pkg.inner.wf() ==> final(self).pkg.inner.wf(),
            final(self).pkg.commands() == import_fold(
                import_fold(old(self).pkg.commands(), utf8_lossy(package.name@), package.methods@),
                utf8_lossy(package.name@),
                crate::packages::dyn_pairs(package.dyn_methods@),
            ),
            final(self).code == old(self).code,
            final(self).extends == old(self).extends,
    {
        self.pkg.import(package);
    }

    /// Adds a package given by its name (as bytes) and its commands.
    pub fn add_pkg_raw(&mut self, name: &[u8], methods: &Vec<(String, u64)>)
        ensures
            old(self).pkg.inner.wf() ==> final(self).pkg.inner.wf(),
            final(self).pkg.commands() == import_fold(
                old(self).pkg.commands(),
                utf8_lossy(name@),
                methods@,
            ),
            final(self).code == old(self).code,
            final(self).extends == old(self).extends,
    {
        let none: Vec<(String, u64)> = Vec::new();
        self.pkg.import_dyn(name, methods, &none);
        proof {
            assert(none@ =~= Seq::<(String, u64)>::empty());
        }
    }

    /// The commands, in the order of their import, each with its package.
    pub fn list_cmds(&self) -> (r: Vec<(String, String)>)
        ensures
            r@.len() == self.pkg.inner.entries_seq().len(),
            forall|i: int|
                0 <= i < r@.len() ==> (#[trigger] r@[i]).0@ == self.pkg.inner.entries_seq()[i].0@
                    && r@[i].1@ == self.pkg.inner.entries_seq()[i].1.0@,
    {
        self.pkg.list()
    }
}

/// Why a file cannot be interpreted.
pub enum InterpretError {
    /// The program has no file of that name.
    NoSuchFile,
    /// The file is a Lead module, not Lead code.
    NotCode,
}

/// The token lines of the file `file` of the program.
pub fn code_lines(code: &Dict<LeadCode>, file: &str) -> (r: Result<Vec<Vec<String>>, InterpretError>)
    ensures
        !code.view().contains_key(file@) ==> (r matches Err(e) && e is NoSuchFile),
        code.view().contains_key(file@) ==> match code.view()[file@] {
            LeadCode::Code(l) => r matches Ok(x) && lines_view(x@) == lines_view(l@),
            LeadCode::LeadModule(_) => r matches Err(e) && e is NotCode,
        },
{
    match code.get(file) {
        None => Err(InterpretError::NoSuchFile),
        Some(LeadCode::Code(l)) => Ok(crate::parser::clone_lines(l, 0, l.len())),
        Some(LeadCode::LeadModule(_)) => Err(InterpretError::NotCode),
    }
}

/// A file being interpreted: its token lines, the line at which it stands,
/// the work counter, the markers of `*mark`, its heap, and whether it is
/// the body of a module method.
pub struct Frame {
    pub lines: Vec<Vec<String>>,
    pub line: usize,
    pub total: i8,
    pub markers: Dict<usize>,
    pub heap: Heap,
    pub in_module: bool,
}

/// The work a frame may do before it yields to other tasks.
pub open spec fn work_budget() -> i8 {
    8
}

impl Frame {
    /// A frame at the first of `lines`, with a fresh heap whose defaults
    /// are `def_extends`.
    pub fn new(lines: Vec<Vec<String>>, def_extends: Arc<ExtendsInternal>) -> (r: Self)
        requires
            def_extends.wf(),
        ensures
            r.lines == lines,
            r.line == 0,
            r.total == work_budget(),
            r.markers.view() == Map::<Seq<char>, usize>::empty(),
            r.heap.wf(),
            r.heap.data.view() == Map::<Seq<char>, crate::value::BufValue>::empty(),
            r.heap.this is None,
            r.heap.def_extends == def_extends,
            !r.in_module,
    {
        Frame { lines, line: 0, total: 8, markers: Dict::new(), heap: Heap::new(def_extends), in_module: false }
    }

    /// The frame of a call into a module method, with the method's lines
    /// and heap; and the module's identity and methods, kept for its return.
    pub fn for_call(call: ModuleCall) -> (r: (Self, u64, Dict<crate::parser::ModuleMethod>))
        ensures
            r.0.lines == call.code,
            r.0.heap == call.frame,
            r.0.line == 0,
            r.0.total == work_budget(),
            r.0.markers.view() == Map::<Seq<char>, usize>::empty(),
            r.0.in_module,
            r.1 == call.id,
            r.2 == call.methods,
    {
        let ModuleCall { frame, code, id, methods } = call;
        (Frame { lines: code, line: 0, total: 8, markers: Dict::new(), heap: frame, in_module: true }, id, methods)
    }
}

/// What the next line of a frame gives.
pub enum LineOutcome {
    /// The frame has run all its lines.
    Finished,
    /// The line ran, or was skipped; this is what follows from it.
    Ran(Step),
    /// The line could not be weighed.
    BadState(StateError),
    /// The line could not run.
    Failed(RunError),
}

/// A line's outcome as the outcome of running its tokens.
pub open spec fn line_outcome_view(r: LineOutcome) -> Result<StepView, RunFault> {
    match r {
        LineOutcome::Ran(s) => Ok(s.view()),
        LineOutcome::Failed(e) => Err(e.view()),
        _ => Err(RunFault::Overflow),
    }
}

/// Runs the line at which the frame stands: weighs its conditions, then
/// runs what remains of it.
pub fn run_line(frame: &mut Frame, code: &Dict<LeadCode>, pkgs: &LanguagePackages, next_id: &mut u64) -> (r:
    LineOutcome)
    requires
        old(frame).heap.wf(),
    ensures
        final(frame).heap.wf(),
        final(frame).lines == old(frame).lines,
        final(frame).in_module == old(frame).in_module,
        old(frame).line >= old(frame).lines@.len() ==> (r is Finished && *final(frame) == *old(frame)),
        old(frame).line < old(frame).lines@.len() ==> {
            let a = views(old(frame).lines@[old(frame).line as int]@);
            let c = state_spec(a, old(frame).heap, 0, old(frame).total as int).1;
            match state_spec(a, old(frame).heap, 0, old(frame).total as int).0 {
                Err(f) => r matches LineOutcome::BadState(e) && e.view() == f && final(frame).heap
                    == old(frame).heap && final(frame).line == old(frame).line
                    && final(frame).markers == old(frame).markers && final(frame).total as int == c,
                Ok(LineStateView::Ignore) => r matches LineOutcome::Ran(Step::Done) && final(frame).heap == old(frame).heap && final(frame).line == old(frame).line
                    && final(frame).markers == old(frame).markers && final(frame).total as int == c,
                Ok(LineStateView::Run { from, to_set, val_type }) => (r is Ran || r is Failed) && run_rel(
                    c,
                    final(frame).total as int,
                    a,
                    from,
                    to_set,
                    val_type,
                    old(frame).in_module,
                    old(frame).heap,
                    final(frame).heap,
                    old(frame).line,
                    final(frame).line,
                    old(frame).markers.view(),
                    final(frame).markers.view(),
                    code.view(),
                    *pkgs,
                    *old(next_id),
                    *final(next_id),
                    line_outcome_view(r),
                ),
            }
        },
{
    if frame.line >= frame.lines.len() {
        return LineOutcome::Finished;
    }
    let args = &frame.lines[frame.line];
    match check_state(&mut frame.total, args, &frame.heap) {
        Err(e) => LineOutcome::BadState(e),
        Ok(LineState::Ignore) => LineOutcome::Ran(Step::Done),
        Ok(LineState::Run { from, to_set, val_type }) => {
            let ghost c = frame.total as int;
            let ghost h0 = frame.heap;
            let ghost l0 = frame.line;
            let ghost m0 = frame.markers.view();
            let ghost id0 = *next_id;
            let out = tok_run(
                &mut frame.total,
                args,
                from,
                to_set.as_str(),
                val_type,
                frame.in_module,
                &mut frame.heap,
                &mut frame.line,
                &mut frame.markers,
                code,
                pkgs,
                next_id,
            );
            let ghost ov = outcome_view(out);
            proof {
                assert(run_rel(
                    c,
                    frame.total as int,
                    views(args@),
                    from as int,
                    to_set@,
                    val_type,
                    frame.in_module,
                    h0,
                    frame.heap,
                    l0,
                    frame.line,
                    m0,
                    frame.markers.view(),
                    code.view(),
                    *pkgs,
                    id0,
                    *next_id,
                    ov,
                ));
            }
            let r = match out {
                Ok(s) => LineOutcome::Ran(s),
                Err(e) => LineOutcome::Failed(e),
            };
            proof {
                let a = views(old(frame).lines@[old(frame).line as int]@);
                assert(a == views(args@));
                let cc = state_spec(a, old(frame).heap, 0, old(frame).total as int).1;
                let st = state_spec(a, old(frame).heap, 0, old(frame).total as int).0;
                assert(cc == c);
                assert(st == Ok::<LineStateView, StateFault>(LineStateView::Run { from: from as int, to_set: to_set@, val_type }));
                assert(ov == line_outcome_view(r));
            }
            r
        },
    }
}

/// Moves a frame past its line; `true` when the work it did since it last
/// yielded calls for yielding now, and the work counter starts afresh.
pub fn end_line(frame: &mut Frame) -> (r: bool)
    requires
        old(frame).line < usize::MAX,
    ensures
        final(frame).line == old(frame).line + 1,
        r == (old(frame).total <= 0),
        final(frame).total == if r {
            work_budget()
        } else {
            old(frame).total
        },
        final(frame).lines == old(frame).lines,
        final(frame).markers == old(frame).markers,
        final(frame).heap == old(frame).heap,
        final(frame).in_module == old(frame).in_module,
{
    frame.line = frame.line + 1;
    if frame.total <= 0 {
        frame.total = 8;
        true
    } else {
        false
    }
}

/// Ends a call into a module method whose frame has run: the module goes
/// back into the slot `key` of the caller's heap, its own heap as the
/// method left it.
pub fn finish_call(heap: &mut Heap, key: String, frame: Frame, id: u64, methods: Dict<crate::parser::ModuleMethod>)
    ensures
        final(heap).this == old(heap).this,
        final(heap).extends == old(heap).extends,
        final(heap).def_extends == old(heap).def_extends,
        match frame.heap.this {
            Some(p) => final(heap).data.view() == old(heap).data.view().insert(
                key@,
                crate::value::BufValue::RuntimeRaw(
                    crate::value::RawRTValue::RTCM(
                        Box::new(
                            crate::value::RTCreatedModule { id, heap: *p, methods },
                        ),
                    ),
                ),
            ),
            None => final(heap).data.view() == old(heap).data.view(),
        },
{
    end_module_call(heap, key, ModuleCall { frame: frame.heap, code: Vec::new(), id, methods });
}

} // verus!
