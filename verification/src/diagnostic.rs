//! Compile-time findings, and the de-duplication applied to them by the
//! pipeline's final pass.

use vstd::prelude::*;

verus! {

/// How severe a finding is.  Only `Error` findings prevent a compilation from
/// producing a usable program.
#[derive(Debug, Clone, Copy, PartialEq, Eq, Structural)]
pub enum DiagnosticSeverity {
    Error,
    Warning,
    Info,
}

/// A position in source text.
#[derive(Debug, Clone, Copy, PartialEq, Eq, Structural)]
pub struct Position {
    /// Zero-based line index.
    pub line: usize,
    /// Zero-based character offset within the line.
    pub character: usize,
}

/// A compile-time finding: a severity, a message, and optionally where in the
/// source it was observed.
#[derive(Debug)]
pub struct Diagnostic {
    pub severity: DiagnosticSeverity,
    pub message: String,
    pub position: Option<Position>,
}

/// Structural equality of diagnostics, messages by their character sequences.
pub open spec fn diag_eq(a: Diagnostic, b: Diagnostic) -> bool {
    &&& a.severity == b.severity
    &&& a.message@ == b.message@
    &&& a.position == b.position
}

/// Whether `s` holds a diagnostic structurally equal to `d`.
pub open spec fn contains_diag(s: Seq<Diagnostic>, d: Diagnostic) -> bool {
    exists|i: int| 0 <= i < s.len() && diag_eq(s[i], d)
}

impl Diagnostic {
    /// An `Error` diagnostic with the given message and no position.
    pub fn from_message(message: String) -> (r: Self)
        ensures
            r.severity == DiagnosticSeverity::Error,
            r.message == message,
            r.position is None,
    {
        Diagnostic { severity: DiagnosticSeverity::Error, message, position: None }
    }

    /// A diagnostic with the given severity and message and no position.
    pub fn new(severity: DiagnosticSeverity, message: String) -> (r: Self)
        ensures
            r.severity == severity,
            r.message == message,
            r.position is None,
    {
        Diagnostic { severity, message, position: None }
    }

    /// Attaches a source position.
    pub fn with_position(self, position: Position) -> (r: Self)
        ensures
            r.severity == self.severity,
            r.message == self.message,
            r.position == Some(position),
    {
        Diagnostic { position: Some(position), ..self }
    }

    /// Decides `diag_eq`.
    pub fn eq_diag(&self, other: &Diagnostic) -> (r: bool)
        ensures
            r == diag_eq(*self, *other),
    {
        let severity_eq = match (self.severity, other.severity) {
            (DiagnosticSeverity::Error, DiagnosticSeverity::Error) => true,
            (DiagnosticSeverity::Warning, DiagnosticSeverity::Warning) => true,
            (DiagnosticSeverity::Info, DiagnosticSeverity::Info) => true,
            _ => false,
        };
        let position_eq = match (&self.position, &other.position) {
            (None, None) => true,
            (Some(p), Some(q)) => p.line == q.line && p.character == q.character,
            _ => false,
        };
        severity_eq && position_eq && self.message.eq(&other.message)
    }
}

impl Clone for Diagnostic {
    /// Cloning preserves the diagnostic exactly.
    fn clone(&self) -> (r: Self)
        ensures
            r == *self,
    {
        Diagnostic {
            severity: self.severity,
            message: self.message.clone(),
            position: self.position,
        }
    }
}

/// The de-duplicated form of a diagnostic list: each diagnostic's first
/// occurrence is kept, in order; later structurally-equal occurrences are
/// dropped.
pub open spec fn dedup_spec(s: Seq<Diagnostic>) -> Seq<Diagnostic>
    decreases s.len(),
{
    if s.len() == 0 {
        Seq::empty()
    } else {
        let prefix = dedup_spec(s.drop_last());
        if contains_diag(s.drop_last(), s.last()) {
            prefix
        } else {
            prefix.push(s.last())
        }
    }
}

/// De-duplication keeps exactly the diagnostics of the input: membership is
/// unchanged.
pub proof fn lemma_dedup_membership(s: Seq<Diagnostic>, d: Diagnostic)
    ensures
        contains_diag(dedup_spec(s), d) == contains_diag(s, d),
    decreases s.len(),
{
    if s.len() != 0 {
        let p = s.drop_last();
        let q = dedup_spec(p);
        let out = dedup_spec(s);
        lemma_dedup_membership(p, d);
        lemma_dedup_membership(p, s.last());
        // everything in q also stands in out
        assert forall|x: Diagnostic| contains_diag(q, x) implies contains_diag(out, x) by {
            let j = choose|j: int| 0 <= j < q.len() && diag_eq(q[j], x);
            assert(out[j] == q[j]);
            assert(contains_diag(out, x));
        }
        // everything in p also stands in s
        assert forall|x: Diagnostic| contains_diag(p, x) implies contains_diag(s, x) by {
            let j = choose|j: int| 0 <= j < p.len() && diag_eq(p[j], x);
            assert(s[j] == p[j]);
            assert(contains_diag(s, x));
        }
        if contains_diag(s, d) {
            let i = choose|i: int| 0 <= i < s.len() && diag_eq(s[i], d);
            if i < p.len() {
                assert(p[i] == s[i]);
                assert(contains_diag(p, d));
                assert(contains_diag(out, d));
            } else {
                assert(diag_eq(s.last(), d));
                if contains_diag(p, s.last()) {
                    let j = choose|j: int| 0 <= j < p.len() && diag_eq(p[j], s.last());
                    assert(diag_eq(p[j], d));
                    assert(contains_diag(p, d));
                    assert(contains_diag(out, d));
                } else {
                    assert(out.last() == s.last());
                    assert(contains_diag(out, d));
                }
            }
        }
        if contains_diag(out, d) {
            let i = choose|i: int| 0 <= i < out.len() && diag_eq(out[i], d);
            if i < q.len() {
                assert(out[i] == q[i]);
                assert(contains_diag(q, d));
                assert(contains_diag(p, d));
                assert(contains_diag(s, d));
            } else {
                assert(out[i] == s.last());
                assert(s[s.len() - 1] == s.last());
                assert(contains_diag(s, d));
            }
        }
    }
}

/// Whether a diagnostic list holds no two structurally-equal entries.
pub open spec fn diag_dup_free(s: Seq<Diagnostic>) -> bool {
    forall|i: int, j: int| 0 <= i < j < s.len() ==> !diag_eq(s[i], s[j])
}

/// De-duplication yields a duplicate-free list.
pub proof fn lemma_dedup_dup_free(s: Seq<Diagnostic>)
    ensures
        diag_dup_free(dedup_spec(s)),
    decreases s.len(),
{
    if s.len() != 0 {
        let p = s.drop_last();
        lemma_dedup_dup_free(p);
        if !contains_diag(p, s.last()) {
            lemma_dedup_membership(p, s.last());
            let out = dedup_spec(s);
            let q = dedup_spec(p);
            assert forall|i: int, j: int| 0 <= i < j < out.len() implies !diag_eq(out[i], out[j]) by {
                if j < q.len() {
                    assert(out[i] == q[i] && out[j] == q[j]);
                } else {
                    assert(out[j] == s.last());
                    assert(out[i] == q[i]);
                    if diag_eq(q[i], s.last()) {
                        assert(contains_diag(q, s.last()));
                    }
                }
            }
        }
    }
}

/// De-duplicating an already duplicate-free list changes nothing.
pub proof fn lemma_dedup_of_dup_free(s: Seq<Diagnostic>)
    requires
        diag_dup_free(s),
    ensures
        dedup_spec(s) == s,
    decreases s.len(),
{
    if s.len() == 0 {
        assert(dedup_spec(s) =~= s);
    } else {
        let p = s.drop_last();
        assert(diag_dup_free(p));
        lemma_dedup_of_dup_free(p);
        if contains_diag(p, s.last()) {
            let i = choose|i: int| 0 <= i < p.len() && diag_eq(p[i], s.last());
            assert(diag_eq(s[i], s[s.len() - 1]));
            assert(false);
        }
        assert(dedup_spec(s) =~= s);
    }
}

/// De-duplication is idempotent: running the final pass's de-duplication over
/// an already de-duplicated list yields the same list, order preserved.
pub proof fn lemma_dedup_idempotent(s: Seq<Diagnostic>)
    ensures
        dedup_spec(dedup_spec(s)) == dedup_spec(s),
{
    lemma_dedup_dup_free(s);
    lemma_dedup_of_dup_free(dedup_spec(s));
}


/// The final pass's de-duplication: of `comp` (the compilation's diagnostic
/// list), each element's first occurrence is kept, in order, provided the
/// element also stands among `raised` (the accumulated findings); later
/// structurally-equal occurrences and unraised elements are dropped.
pub open spec fn dedup_filtered_spec(comp: Seq<Diagnostic>, raised: Seq<Diagnostic>) -> Seq<
    Diagnostic,
>
    decreases comp.len(),
{
    if comp.len() == 0 {
        Seq::empty()
    } else {
        let prefix = dedup_filtered_spec(comp.drop_last(), raised);
        if contains_diag(comp.drop_last(), comp.last()) || !contains_diag(raised, comp.last()) {
            prefix
        } else {
            prefix.push(comp.last())
        }
    }
}

/// The filtered de-duplication keeps exactly the raised diagnostics of the
/// input: membership is the conjunction of both lists' membership.
pub proof fn lemma_dedup_filtered_membership(
    comp: Seq<Diagnostic>,
    raised: Seq<Diagnostic>,
    d: Diagnostic,
)
    ensures
        contains_diag(dedup_filtered_spec(comp, raised), d) == (contains_diag(comp, d)
            && contains_diag(raised, d)),
    decreases comp.len(),
{
    if comp.len() != 0 {
        let p = comp.drop_last();
        let q = dedup_filtered_spec(p, raised);
        let out = dedup_filtered_spec(comp, raised);
        lemma_dedup_filtered_membership(p, raised, d);
        lemma_dedup_filtered_membership(p, raised, comp.last());
        assert forall|x: Diagnostic| contains_diag(q, x) implies contains_diag(out, x) by {
            let j = choose|j: int| 0 <= j < q.len() && diag_eq(q[j], x);
            assert(out[j] == q[j]);
            assert(contains_diag(out, x));
        }
        assert forall|x: Diagnostic| contains_diag(p, x) implies contains_diag(comp, x) by {
            let j = choose|j: int| 0 <= j < p.len() && diag_eq(p[j], x);
            assert(comp[j] == p[j]);
            assert(contains_diag(comp, x));
        }
        if contains_diag(comp, d) && contains_diag(raised, d) {
            let i = choose|i: int| 0 <= i < comp.len() && diag_eq(comp[i], d);
            if i < p.len() {
                assert(p[i] == comp[i]);
                assert(contains_diag(p, d));
                assert(contains_diag(out, d));
            } else {
                assert(diag_eq(comp.last(), d));
                // a raised last element: either a copy stands earlier, or it
                // is appended itself
                assert forall|x: Diagnostic, y: Diagnostic, z: Diagnostic|
                    diag_eq(x, y) && diag_eq(y, z) implies diag_eq(x, z) by {}
                if contains_diag(p, comp.last()) {
                    let j = choose|j: int| 0 <= j < p.len() && diag_eq(p[j], comp.last());
                    assert(diag_eq(p[j], d));
                    assert(contains_diag(p, d));
                    assert(contains_diag(raised, comp.last()));
                    let m = choose|m: int| 0 <= m < raised.len() && diag_eq(raised[m], comp.last());
                    assert(diag_eq(raised[m], d));
                    assert(contains_diag(out, d));
                } else {
                    assert(contains_diag(raised, comp.last()));
                    assert(out.last() == comp.last());
                    assert(contains_diag(out, d));
                }
            }
        }
        if contains_diag(out, d) {
            let i = choose|i: int| 0 <= i < out.len() && diag_eq(out[i], d);
            if i < q.len() {
                assert(out[i] == q[i]);
                assert(contains_diag(q, d));
            } else {
                assert(out[i] == comp.last());
                assert(comp[comp.len() - 1] == comp.last());
                assert(contains_diag(comp, d));
                let m = choose|m: int| 0 <= m < raised.len() && diag_eq(raised[m], comp.last());
                assert(diag_eq(raised[m], d));
                assert(contains_diag(raised, d));
            }
        }
    }
}

/// The filtered de-duplication yields a duplicate-free list.
pub proof fn lemma_dedup_filtered_dup_free(comp: Seq<Diagnostic>, raised: Seq<Diagnostic>)
    ensures
        diag_dup_free(dedup_filtered_spec(comp, raised)),
    decreases comp.len(),
{
    if comp.len() != 0 {
        let p = comp.drop_last();
        lemma_dedup_filtered_dup_free(p, raised);
        if !contains_diag(p, comp.last()) && contains_diag(raised, comp.last()) {
            lemma_dedup_filtered_membership(p, raised, comp.last());
            let out = dedup_filtered_spec(comp, raised);
            let q = dedup_filtered_spec(p, raised);
            assert forall|i: int, j: int| 0 <= i < j < out.len() implies !diag_eq(
                out[i],
                out[j],
            ) by {
                if j < q.len() {
                    assert(out[i] == q[i] && out[j] == q[j]);
                } else {
                    assert(out[j] == comp.last());
                    assert(out[i] == q[i]);
                    if diag_eq(q[i], comp.last()) {
                        assert(contains_diag(q, comp.last()));
                    }
                }
            }
        }
    }
}

/// Running the final pass's de-duplication over an already de-duplicated
/// list whose elements were all raised yields the same list, order
/// preserved.
pub proof fn lemma_dedup_filtered_stable(comp: Seq<Diagnostic>, raised: Seq<Diagnostic>)
    requires
        diag_dup_free(comp),
        forall|i: int| 0 <= i < comp.len() ==> contains_diag(raised, #[trigger] comp[i]),
    ensures
        dedup_filtered_spec(comp, raised) == comp,
    decreases comp.len(),
{
    if comp.len() == 0 {
        assert(dedup_filtered_spec(comp, raised) =~= comp);
    } else {
        let p = comp.drop_last();
        assert(diag_dup_free(p));
        assert forall|i: int| 0 <= i < p.len() implies contains_diag(
            raised,
            #[trigger] p[i],
        ) by {
            assert(p[i] == comp[i]);
        }
        lemma_dedup_filtered_stable(p, raised);
        if contains_diag(p, comp.last()) {
            let i = choose|i: int| 0 <= i < p.len() && diag_eq(p[i], comp.last());
            assert(diag_eq(comp[i], comp[comp.len() - 1]));
            assert(false);
        }
        assert(comp[comp.len() - 1] == comp.last());
        assert(contains_diag(raised, comp.last()));
        assert(dedup_filtered_spec(comp, raised) =~= comp);
    }
}

/// De-duplicates the compilation's diagnostic list, keeping in order each
/// first occurrence that also stands among the raised findings.
pub fn deduplicate_raised(comp: &Vec<Diagnostic>, raised: &Vec<Diagnostic>) -> (r: Vec<Diagnostic>)
    ensures
        r@ == dedup_filtered_spec(comp@, raised@),
{
    let n = comp.len();
    let mut out: Vec<Diagnostic> = Vec::new();
    let mut i: usize = 0;
    while i < n
        invariant
            n == comp@.len(),
            i <= n,
            out@ == dedup_filtered_spec(comp@.subrange(0, i as int), raised@),
        decreases n - i,
    {
        let ghost prefix = comp@.subrange(0, i as int);
        let ghost prefix1 = comp@.subrange(0, i + 1);
        proof {
            assert(prefix1.drop_last() =~= prefix);
            assert(prefix1.last() == comp@[i as int]);
            lemma_dedup_filtered_membership(prefix, raised@, comp@[i as int]);
        }
        if !vec_contains_diag(&out, &comp[i]) && vec_contains_diag(raised, &comp[i]) {
            out.push(comp[i].clone());
        }
        i += 1;
    }
    proof {
        assert(comp@.subrange(0, n as int) =~= comp@);
    }
    out
}

/// Copies a diagnostic list.
pub fn clone_diagnostics(v: &Vec<Diagnostic>) -> (r: Vec<Diagnostic>)
    ensures
        r@ == v@,
{
    let n = v.len();
    let mut out: Vec<Diagnostic> = Vec::new();
    let mut i: usize = 0;
    while i < n
        invariant
            n == v@.len(),
            i <= n,
            out@.len() == i,
            forall|j: int| 0 <= j < i ==> out@[j] == v@[j],
        decreases n - i,
    {
        out.push(v[i].clone());
        i += 1;
    }
    proof {
        assert(out@ =~= v@);
    }
    out
}

/// Decides `contains_diag`.
pub fn vec_contains_diag(v: &Vec<Diagnostic>, d: &Diagnostic) -> (r: bool)
    ensures
        r == contains_diag(v@, *d),
{
    let n = v.len();
    let mut i: usize = 0;
    while i < n
        invariant
            n == v@.len(),
            i <= n,
            forall|j: int| 0 <= j < i ==> !diag_eq(v@[j], *d),
        decreases n - i,
    {
        if v[i].eq_diag(d) {
            return true;
        }
        i += 1;
    }
    false
}

/// De-duplicates a diagnostic list, keeping each diagnostic's first
/// occurrence in order.
pub fn deduplicate_diagnostics(diags: &Vec<Diagnostic>) -> (r: Vec<Diagnostic>)
    ensures
        r@ == dedup_spec(diags@),
{
    let n = diags.len();
    let mut out: Vec<Diagnostic> = Vec::new();
    let mut i: usize = 0;
    while i < n
        invariant
            n == diags@.len(),
            i <= n,
            out@ == dedup_spec(diags@.subrange(0, i as int)),
        decreases n - i,
    {
        let ghost prefix = diags@.subrange(0, i as int);
        let ghost prefix1 = diags@.subrange(0, i + 1);
        proof {
            assert(prefix1.drop_last() =~= prefix);
            assert(prefix1.last() == diags@[i as int]);
            lemma_dedup_membership(prefix, diags@[i as int]);
        }
        if !vec_contains_diag(&out, &diags[i]) {
            out.push(diags[i].clone());
        }
        i += 1;
    }
    proof {
        assert(diags@.subrange(0, n as int) =~= diags@);
    }
    out
}

} // verus!
