//! Compiling custom materials: when one is registered, what is kept of a failure,
//! and when everything has settled.
use crate::custom_material::{CompileError, CustomMaterial};
use crate::list::List;
use crate::text::{contains_text, holds, joined3};
use vstd::prelude::*;

verus! {

/// How often a new material is tried before it stays a draft.
pub const FIRST_TRIES: u32 = 4;

/// How long to wait before a new material is tried again, in milliseconds.
pub const RETRY_MS: u32 = 300;

/// How long edits of a material are gathered before it is compiled, in
/// milliseconds.
pub const RECOMPILE_MS: u32 = 400;

/// How often it is looked whether everything has settled, in milliseconds.
pub const POLL_MS: u32 = 16;

/// A problem in the source of a material, at a line of it.
pub struct SyntaxError {
    pub line: u32,
    pub message: String,
}

/// What registering a material came to.
pub enum RegisterOutcome {
    /// The renderer did not take it.
    Rejected(String),
    /// The renderer took it, and found these errors in the assembled shader.
    Checked(Vec<String>),
}

/// Whether problems are those of the source, with their lines.
pub open spec fn tells_syntax(row: Seq<CompileError>, found: Seq<SyntaxError>) -> bool {
    &&& row.len() == found.len()
    &&& forall|i: int|
        0 <= i < row.len() ==> (#[trigger] row[i]).line == Some(found[i].line) && row[i].message@
            == found[i].message@
}

/// Whether problems are those of the assembled shader, whose lines say nothing of
/// the source.
pub open spec fn tells_errors(row: Seq<CompileError>, errors: Seq<String>) -> bool {
    &&& row.len() == errors.len()
    &&& forall|i: int|
        0 <= i < row.len() ==> (#[trigger] row[i]).line is None && row[i].message@ == errors[i]@
}

/// A material with other problems, registered or not.
pub open spec fn compiled(m: CustomMaterial, registered: bool, problems: List<CompileError>) -> CustomMaterial {
    CustomMaterial { registered, last_diagnostics: problems, ..m }
}

/// Whether a material is to be registered. One that was deleted in the meantime
/// is not, and stays as it was. One whose source has problems is not either: it
/// keeps them, and is a draft.
pub fn may_register(mat: &mut CustomMaterial, deleted: bool, syntax: &Vec<SyntaxError>) -> (go: bool)
    ensures
        go == (!deleted && syntax@.len() == 0),
        deleted || syntax@.len() == 0 ==> *final(mat) == *old(mat),
        !deleted && syntax@.len() > 0 ==> tells_syntax(
            final(mat).last_diagnostics@,
            syntax@,
        ) && *final(mat) == compiled(*old(mat), false, final(mat).last_diagnostics),
{
    if deleted {
        return false;
    }
    if syntax.len() == 0 {
        return true;
    }
    let mut row: Vec<CompileError> = Vec::new();
    let mut i: usize = 0;
    while i < syntax.len()
        invariant
            i <= syntax@.len(),
            row@.len() == i,
            forall|j: int|
                0 <= j < i ==> (#[trigger] row@[j]).line == Some(syntax@[j].line)
                    && row@[j].message@ == syntax@[j].message@,
        decreases syntax@.len() - i,
    {
        row.push(CompileError { line: Some(syntax[i].line), message: syntax[i].message.clone() });
        i += 1;
    }
    mat.last_diagnostics = List::from_vec(row);
    mat.registered = false;
    false
}

/// Whether a material is registered after an outcome.
pub open spec fn succeeds(outcome: RegisterOutcome) -> bool {
    outcome matches RegisterOutcome::Checked(errors) && errors@.len() == 0
}

/// Keeps what registering a material came to: it is registered only where the
/// renderer took it and found no errors. Whether it is.
pub fn finish_register(mat: &mut CustomMaterial, outcome: RegisterOutcome) -> (ok: bool)
    ensures
        ok == succeeds(outcome),
        *final(mat) == compiled(*old(mat), ok, final(mat).last_diagnostics),
        match outcome {
            RegisterOutcome::Rejected(e) => tells_errors(final(mat).last_diagnostics@, seq![e]),
            RegisterOutcome::Checked(errors) => tells_errors(
                final(mat).last_diagnostics@,
                errors@,
            ),
        },
{
    let mut row: Vec<CompileError> = Vec::new();
    let ok = match outcome {
        RegisterOutcome::Rejected(e) => {
            row.push(CompileError { line: None, message: e });
            false
        },
        RegisterOutcome::Checked(errors) => {
            let mut i: usize = 0;
            while i < errors.len()
                invariant
                    i <= errors@.len(),
                    row@.len() == i,
                    forall|j: int|
                        0 <= j < i ==> (#[trigger] row@[j]).line is None && row@[j].message@
                            == errors@[j]@,
                decreases errors@.len() - i,
            {
                row.push(CompileError { line: None, message: errors[i].clone() });
                i += 1;
            }
            errors.len() == 0
        },
    };
    mat.last_diagnostics = List::from_vec(row);
    mat.registered = ok;
    ok
}

/// A registered material has no problems on record.
pub proof fn law_registered_material_is_clean(outcome: RegisterOutcome, row: Seq<CompileError>)
    requires
        succeeds(outcome),
        outcome matches RegisterOutcome::Checked(errors) ==> tells_errors(row, errors@),
    ensures
        row.len() == 0,
{
}

/// What the indicator says while a material compiles.
pub fn compiling_text(name: &str) -> (r: String)
    ensures
        r@ == "Compiling material \u{201c}"@ + name@ + "\u{201d} \u{2014} render pipelines\u{2026}"@,
{
    joined3(
        "Compiling material \u{201c}",
        name,
        "\u{201d} \u{2014} render pipelines\u{2026}",
    )
}

/// What is said once a material is registered; one that was registered before was
/// compiled again.
pub fn registered_text(name: &str, was_registered: bool) -> (r: String)
    ensures
        r@ == if was_registered {
            "Recompiled \u{201c}"@ + name@ + "\u{201d} \u{2014} bucket refreshed."@
        } else {
            "Registered \u{201c}"@ + name@ + "\u{201d}."@
        },
{
    if was_registered {
        joined3("Recompiled \u{201c}", name, "\u{201d} \u{2014} bucket refreshed.")
    } else {
        joined3("Registered \u{201c}", name, "\u{201d}.")
    }
}

/// What is done after a try to compile a new material.
#[derive(Clone, Copy, PartialEq, Eq, Structural, Debug)]
pub enum AfterTry {
    /// It is over.
    Stop,
    /// Wait, and try again.
    Retry,
}

/// What is done after the try with a number, counted from zero.
pub fn after_try(attempt: u32, ok: bool) -> (r: AfterTry)
    ensures
        r == if ok || attempt + 1 >= FIRST_TRIES {
            AfterTry::Stop
        } else {
            AfterTry::Retry
        },
{
    if ok || attempt >= FIRST_TRIES - 1 {
        AfterTry::Stop
    } else {
        AfterTry::Retry
    }
}

/// Waiting for the edits of a material to pause.
pub struct Debounce {
    pub seen_first: bool,
    pub generation: u64,
}

/// The generation after another.
pub open spec fn next_generation(g: u64) -> u64 {
    if g == u64::MAX {
        0
    } else {
        (g + 1) as u64
    }
}

impl Debounce {
    /// Nothing has been seen.
    pub fn new() -> (d: Debounce)
        ensures
            !d.seen_first,
            d.generation == 0,
    {
        Debounce { seen_first: false, generation: 0 }
    }

    /// The material has changed. The generation to wait for; the first value that
    /// is seen is no change.
    pub fn edited(&mut self) -> (r: Option<u64>)
        ensures
            final(self).seen_first,
            final(self).generation == next_generation(old(self).generation),
            r == if old(self).seen_first {
                Some(final(self).generation)
            } else {
                None
            },
    {
        let fire = self.seen_first;
        self.seen_first = true;
        self.generation = if self.generation == u64::MAX {
            0
        } else {
            self.generation + 1
        };
        if fire {
            Some(self.generation)
        } else {
            None
        }
    }

    /// Whether the material is compiled now that the wait of a generation is over:
    /// only where nothing has changed since.
    pub fn is_due(&self, generation: u64) -> (r: bool)
        ensures
            r == (generation == self.generation),
    {
        generation == self.generation
    }
}

/// An edit that another follows is not compiled: only the last one is.
pub proof fn law_only_the_last_edit_compiles(g: u64)
    ensures
        next_generation(g) != g,
{
}

/// Waiting for everything to settle.
pub struct Settle {
    pub stable: u32,
}

/// Whether nothing is compiling.
pub open spec fn quiet(editor_pending: u32, materials_pending: u32, in_flight: u32) -> bool {
    editor_pending == 0 && materials_pending == 0 && in_flight == 0
}

/// How many looks in a row have found nothing compiling.
pub open spec fn quiet_run(looks: Seq<bool>) -> nat
    decreases looks.len(),
{
    if looks.len() == 0 || !looks.last() {
        0
    } else {
        1 + quiet_run(looks.drop_last())
    }
}

impl Settle {
    pub fn new() -> (s: Settle)
        ensures
            s.stable == 0,
    {
        Settle { stable: 0 }
    }

    /// Whether it is looked again after some time.
    pub fn goes_on(elapsed_ms: u32, max_ms: u32) -> (r: bool)
        ensures
            r == (elapsed_ms < max_ms),
    {
        elapsed_ms < max_ms
    }

    /// Looks once. Whether everything has settled: twice in a row, so that the
    /// settled frame has been shown.
    pub fn look(&mut self, editor_pending: u32, materials_pending: u32, in_flight: u32) -> (settled:
        bool)
        requires
            old(self).stable < 2,
        ensures
            final(self).stable == if quiet(editor_pending, materials_pending, in_flight) {
                old(self).stable + 1
            } else {
                0
            },
            settled == (final(self).stable >= 2),
    {
        if editor_pending == 0 && materials_pending == 0 && in_flight == 0 {
            self.stable += 1;
        } else {
            self.stable = 0;
        }
        self.stable >= 2
    }
}

/// Everything has settled exactly when the last two looks found nothing
/// compiling.
pub proof fn law_settled_is_two_quiet_looks(looks: Seq<bool>)
    ensures
        quiet_run(looks) >= 2 <==> looks.len() >= 2 && looks.last() && looks[looks.len() - 2],
{
    reveal_with_fuel(quiet_run, 3);
    if looks.len() >= 2 {
        let front = looks.drop_last();
        assert(front.last() == looks[looks.len() - 2]);
    }
}

/// What is said of an import that failed. One that the browser refused to fetch
/// names the likely cause.
pub open spec fn import_failure(e: Seq<char>) -> Seq<char> {
    "import failed: "@ + e + if holds(e, "Failed to fetch"@) {
        "\n(likely CORS: the editor is a browser app, so the file server must send `Access-Control-Allow-Origin` \u{2014} plain `python3 -m http.server` does not)"@
    } else {
        ""@
    }
}

/// What is said of an import that failed.
pub fn import_failure_text(e: &str) -> (r: String)
    ensures
        r@ == import_failure(e@),
{
    let hint: &str = if contains_text(e, "Failed to fetch") {
        "\n(likely CORS: the editor is a browser app, so the file server must send `Access-Control-Allow-Origin` \u{2014} plain `python3 -m http.server` does not)"
    } else {
        ""
    };
    joined3("import failed: ", e, hint)
}

} // verus!
