//! The compilation pipeline: an ordered sequence of passes over a threaded
//! intermediate state, ending in a bytecode program, a string table and a
//! de-duplicated diagnostic list.

use vstd::prelude::*;

verus! {

use crate::declaration::{Declaration, DeclarationSource};
use crate::diagnostic::{Diagnostic, DiagnosticSeverity};
use crate::library::Library;
use crate::program::{LineId, Program};
use crate::types::Type;
use crate::value::{YarnValue, value_type_spec, operand_of_value};
use crate::program::initial_value_spec;

/// One source text handed to the compiler.
#[derive(Debug)]
pub struct YarnFile {
    pub file_name: String,
    pub source: String,
}

/// A string-table entry: the text a line identifier stands for, and where it
/// came from.
#[derive(Debug)]
pub struct StringInfo {
    pub id: LineId,
    pub text: String,
    pub node_name: String,
    pub line_number: usize,
    /// Metadata tags attached to the line in source.
    pub tags: Vec<String>,
}

/// The tags registered for a line identifier, if any.
pub open spec fn line_tags_spec(table: Seq<StringInfo>, id: Seq<char>) -> Option<Seq<String>>
    decreases table.len(),
{
    if table.len() == 0 {
        None
    } else if table[0].id.0@ == id {
        Some(table[0].tags@)
    } else {
        line_tags_spec(table.subrange(1, table.len() as int), id)
    }
}

/// The text registered for a line identifier, if any.
pub open spec fn string_table_spec(table: Seq<StringInfo>, id: Seq<char>) -> Option<Seq<char>>
    decreases table.len(),
{
    if table.len() == 0 {
        None
    } else if table[0].id.0@ == id {
        Some(table[0].text@)
    } else {
        string_table_spec(table.subrange(1, table.len() as int), id)
    }
}

/// The result of a compilation: the program (absent when an `Error`
/// diagnostic was raised), the diagnostics, the string table, and the final
/// declaration set for downstream tooling.
#[derive(Debug)]
pub struct Compilation {
    pub program: Option<Program>,
    pub diagnostics: Vec<Diagnostic>,
    pub string_table: Vec<StringInfo>,
    pub declarations: Vec<Declaration>,
}

impl Compilation {
    /// The metadata tags recorded for a line, if its identifier is known.
    pub fn line_metadata(&self, id: &LineId) -> (r: Option<Vec<String>>)
        ensures
            r is Some <==> line_tags_spec(self.string_table@, id.0@) is Some,
            r matches Some(v) ==> line_tags_spec(self.string_table@, id.0@) == Some(v@),
    {
        let n = self.string_table.len();
        proof {
            assert(self.string_table@.subrange(0, n as int) =~= self.string_table@);
        }
        let mut i: usize = 0;
        while i < n
            invariant
                n == self.string_table@.len(),
                i <= n,
                line_tags_spec(self.string_table@, id.0@) == line_tags_spec(
                    self.string_table@.subrange(i as int, n as int),
                    id.0@,
                ),
            decreases n - i,
        {
            let ghost tail = self.string_table@.subrange(i as int, n as int);
            proof {
                assert(tail[0] == self.string_table@[i as int]);
                assert(tail.subrange(1, tail.len() as int) =~= self.string_table@.subrange(
                    i + 1,
                    n as int,
                ));
            }
            if crate::util::str_eq(self.string_table[i].id.0.as_str(), id.0.as_str()) {
                let tn = self.string_table[i].tags.len();
                let mut out: Vec<String> = Vec::new();
                let mut t: usize = 0;
                while t < tn
                    invariant
                        i < n == self.string_table@.len(),
                        tn == self.string_table@[i as int].tags@.len(),
                        t <= tn,
                        out@.len() == t,
                        forall|k: int| 0 <= k < t ==> out@[k] == self.string_table@[
                            i as int
                        ].tags@[k],
                    decreases tn - t,
                {
                    out.push(self.string_table[i].tags[t].clone());
                    t += 1;
                }
                proof {
                    assert(out@ =~= self.string_table@[i as int].tags@);
                }
                return Some(out);
            }
            i += 1;
        }
        None
    }
}

/// The transient state threaded through the pipeline's passes.
#[derive(Debug)]
pub struct CompilationIntermediate {
    /// Declarations known so far, from all inputs.
    pub known_variable_declarations: Vec<Declaration>,
    /// Declarations synthesized by the pipeline itself.
    pub derived_variable_declarations: Vec<Declaration>,
    /// Names of nodes whose visits must be tracked.
    pub tracking_nodes: Vec<String>,
    /// Diagnostics accumulated across passes.
    pub diagnostics: Vec<Diagnostic>,
    /// The compilation being built.
    pub result: Option<Compilation>,
}

/// The invariant the pipeline keeps on its declaration list: names are
/// distinct, and a resolved non-function type is a value type that matches the declared
/// default, when one is present.
pub open spec fn decls_ok(decls: Seq<Declaration>) -> bool {
    &&& forall|i: int, j: int| 0 <= i < j < decls.len() ==> decls[i].name@ != decls[j].name@
    &&& forall|i: int| 0 <= i < decls.len() ==> basic_decl_ok(#[trigger] decls[i])
}

/// The per-declaration part of `decls_ok`.
pub open spec fn basic_decl_ok(d: Declaration) -> bool {
    match d.ty {
        Some(t) => !(t is Function) ==> {
            &&& (t is String || t is Number || t is Boolean)
            &&& match d.default_value {
                Some(v) => value_type_spec(v) == t,
                None => true,
            }
        },
        None => true,
    }
}

/// The name of the synthesized variable that counts a node's visits.
pub open spec fn tracking_name_spec(node: Seq<char>) -> Seq<char> {
    "$Yarn.Internal.Visiting."@ + node
}

/// The description attached to a synthesized tracking declaration.
pub open spec fn tracking_description_spec(node: Seq<char>) -> Seq<char> {
    "The generated variable for tracking visits of node "@ + node
}

impl Library {
    /// The name of the synthesized variable that counts visits of a node.
    pub fn generate_unique_visited_variable_for_node(node: &str) -> (r: String)
        ensures
            r@ == tracking_name_spec(node@),
    {
        "$Yarn.Internal.Visiting.".to_owned().concat(node)
    }
}

/// Distinct nodes get distinct tracking-variable names.
pub proof fn lemma_tracking_names_unique(a: Seq<char>, b: Seq<char>)
    requires
        a != b,
    ensures
        tracking_name_spec(a) != tracking_name_spec(b),
{
    let p = "$Yarn.Internal.Visiting."@;
    if tracking_name_spec(a) == tracking_name_spec(b) {
        assert((p + a).subrange(p.len() as int, (p + a).len() as int) =~= a);
        assert((p + b).subrange(p.len() as int, (p + b).len() as int) =~= b);
    }
}

/// A tracking-variable name is never a name the pipeline accepted from
/// source, since accepted names hold no `'.'`.
pub proof fn lemma_tracking_name_reserved(node: Seq<char>, name: Seq<char>)
    requires
        !name.contains('.'),
    ensures
        tracking_name_spec(node) != name,
{
    let p = "$Yarn.Internal.Visiting."@;
    reveal_strlit("$Yarn.Internal.Visiting.");
    assert(p[5] == '.');
    if tracking_name_spec(node) == name {
        assert(name[5] == '.');
        assert(name.contains('.'));
    }
}

/// Synthesizes, for every node flagged for visit tracking, a `Number`-typed
/// declaration with default value `0`, named after the node, and appends it
/// to both the known and the derived declaration sets.
pub fn add_tracking_declarations(state: CompilationIntermediate) -> (r: CompilationIntermediate)
    requires
        decls_ok(state.known_variable_declarations@),
        forall|i: int| 0 <= i < state.known_variable_declarations@.len() ==> !(
        #[trigger] state.known_variable_declarations@[i]).name@.contains('.'),
        forall|i: int, j: int| 0 <= i < j < state.tracking_nodes@.len()
            ==> state.tracking_nodes@[i]@ != state.tracking_nodes@[j]@,
    ensures
        decls_ok(r.known_variable_declarations@),
        r.known_variable_declarations@.len() == state.known_variable_declarations@.len()
            + state.tracking_nodes@.len(),
        r.derived_variable_declarations@.len() == state.derived_variable_declarations@.len()
            + state.tracking_nodes@.len(),
        forall|i: int| 0 <= i < state.known_variable_declarations@.len()
            ==> r.known_variable_declarations@[i] == state.known_variable_declarations@[i],
        forall|i: int| 0 <= i < state.derived_variable_declarations@.len()
            ==> r.derived_variable_declarations@[i] == state.derived_variable_declarations@[i],
        forall|k: int| 0 <= k < state.tracking_nodes@.len() ==> tracking_decl_matches(
            #[trigger] r.known_variable_declarations@[state.known_variable_declarations@.len() + k],
            state.tracking_nodes@[k]@,
        ),
        forall|k: int| 0 <= k < state.tracking_nodes@.len() ==> tracking_decl_matches(
            #[trigger] r.derived_variable_declarations@[state.derived_variable_declarations@.len()
                + k],
            state.tracking_nodes@[k]@,
        ),
        r.tracking_nodes@ == state.tracking_nodes@,
        r.diagnostics@ == state.diagnostics@,
        r.result == state.result,
{
    let mut state = state;
    let n = state.tracking_nodes.len();
    let ghost known0 = state.known_variable_declarations@;
    let ghost derived0 = state.derived_variable_declarations@;
    let ghost tracking0 = state.tracking_nodes@;
    let ghost diags_in = state.diagnostics@;
    let ghost result_in = state.result;
    let mut k: usize = 0;
    while k < n
        invariant
            n == state.tracking_nodes@.len(),
            k <= n,
            state.tracking_nodes@ == tracking0,
            state.diagnostics@ == diags_in,
            state.result == result_in,
            decls_ok(known0),
            forall|i: int| 0 <= i < known0.len() ==> !(#[trigger] known0[i]).name@.contains('.'),
            forall|i: int, j: int| 0 <= i < j < state.tracking_nodes@.len()
                ==> state.tracking_nodes@[i]@ != state.tracking_nodes@[j]@,
            state.known_variable_declarations@.len() == known0.len() + k,
            state.derived_variable_declarations@.len() == derived0.len() + k,
            forall|i: int| 0 <= i < known0.len() ==> state.known_variable_declarations@[i]
                == known0[i],
            forall|i: int| 0 <= i < derived0.len() ==> state.derived_variable_declarations@[i]
                == derived0[i],
            forall|j: int| 0 <= j < k ==> tracking_decl_matches(
                #[trigger] state.known_variable_declarations@[known0.len() + j],
                state.tracking_nodes@[j]@,
            ),
            forall|j: int| 0 <= j < k ==> tracking_decl_matches(
                #[trigger] state.derived_variable_declarations@[derived0.len() + j],
                state.tracking_nodes@[j]@,
            ),
            decls_ok(state.known_variable_declarations@),
        decreases n - k,
    {
        let node = &state.tracking_nodes[k];
        let name = Library::generate_unique_visited_variable_for_node(node.as_str());
        let description = "The generated variable for tracking visits of node ".to_owned().concat(
            node.as_str(),
        );
        let decl = Declaration {
            name,
            ty: Some(Type::Number),
            default_value: Some(YarnValue::Number(0)),
            description,
            source: DeclarationSource::External,
        };
        let name2 = Library::generate_unique_visited_variable_for_node(node.as_str());
        let description2 = "The generated variable for tracking visits of node ".to_owned().concat(
            node.as_str(),
        );
        let decl2 = Declaration {
            name: name2,
            ty: Some(Type::Number),
            default_value: Some(YarnValue::Number(0)),
            description: description2,
            source: DeclarationSource::External,
        };
        let ghost dview = decl;
        let ghost dview2 = decl2;
        let ghost ks0 = state.known_variable_declarations@;
        let ghost ds0 = state.derived_variable_declarations@;
        state.known_variable_declarations.push(decl);
        state.derived_variable_declarations.push(decl2);
        proof {
            reveal_strlit("$Yarn.Internal.Visiting.");
            assert(tracking_name_spec(state.tracking_nodes@[k as int]@)[5] == '.');
            assert(tracking_decl_matches(dview, state.tracking_nodes@[k as int]@));
            assert(tracking_decl_matches(dview2, state.tracking_nodes@[k as int]@));
            let ks = state.known_variable_declarations@;
            assert(ks =~= ks0.push(dview));
            assert(state.derived_variable_declarations@ =~= ds0.push(dview2));
            assert(ks[ks.len() - 1] == dview);
            assert forall|i: int, j: int| 0 <= i < j < ks.len() implies ks[i].name@
                != ks[j].name@ by {
                if j == ks.len() - 1 {
                    if i < known0.len() {
                        assert(ks[i] == known0[i]);
                        lemma_tracking_name_reserved(
                            state.tracking_nodes@[k as int]@,
                            ks[i].name@,
                        );
                    } else {
                        let jj = i - known0.len();
                        assert(ks[i] == ks0[known0.len() + jj]);
                        assert(tracking_decl_matches(
                            ks0[known0.len() + jj],
                            state.tracking_nodes@[jj]@,
                        ));
                        lemma_tracking_names_unique(
                            state.tracking_nodes@[i - known0.len()]@,
                            state.tracking_nodes@[k as int]@,
                        );
                    }
                } else {
                    assert(ks[i] == ks0[i] && ks[j] == ks0[j]);
                }
            }
            assert forall|i: int| 0 <= i < ks.len() implies basic_decl_ok(#[trigger] ks[i]) by {
                if i == ks.len() - 1 {
                    assert(ks[i].ty == Some(Type::Number));
                    assert(ks[i].default_value == Some(YarnValue::Number(0)));
                }
            }
        }
        k += 1;
    }
    state
}

/// Whether a declaration is the synthesized tracking declaration for `node`:
/// `Number`-typed, default `0`, deterministically named after the node, with
/// a description noting its synthetic origin.
pub open spec fn tracking_decl_matches(d: Declaration, node: Seq<char>) -> bool {
    &&& d.name@ == tracking_name_spec(node)
    &&& d.ty == Some(Type::Number)
    &&& d.default_value == Some(YarnValue::Number(0))
    &&& d.description@ == tracking_description_spec(node)
    &&& d.source == DeclarationSource::External
}

/// The message of the diagnostic raised for a declaration with a resolved
/// type but no default value.
pub open spec fn null_default_message(name: Seq<char>, t: Type) -> Seq<char> {
    "Variable declaration "@ + name + " (type "@ + crate::types::format_name_spec(t)
        + ") has a null default value. This is not allowed."@
}

/// Whether the final pass raises a null-default diagnostic for a declaration.
pub open spec fn needs_null_default_diag(d: Declaration) -> bool {
    &&& d.ty matches Some(t) && !(t is Function)
    &&& d.default_value is None
}

/// The messages of the null-default diagnostics for a declaration list, in
/// declaration order.
pub open spec fn null_default_messages(decls: Seq<Declaration>) -> Seq<Seq<char>>
    decreases decls.len(),
{
    if decls.len() == 0 {
        Seq::empty()
    } else {
        let rest = null_default_messages(decls.drop_last());
        if needs_null_default_diag(decls.last()) {
            rest.push(null_default_message(decls.last().name@, decls.last().ty->Some_0))
        } else {
            rest
        }
    }
}

/// The final pass: for every known declaration with a resolved non-function
/// type, registers its default value as a literal operand of the matching
/// type in the program's initial values; a declaration with a resolved type
/// but no default raises exactly one `Error` diagnostic naming it.  The pass
/// then attaches the derived declarations to the compilation and
/// de-duplicates the compilation's diagnostics, keeping in order each first
/// occurrence that also stands among the accumulated findings.
#[verifier::rlimit(60)]
pub fn add_initial_value_registrations(state: CompilationIntermediate) -> (r:
    CompilationIntermediate)
    requires
        decls_ok(state.known_variable_declarations@),
    ensures
        r.known_variable_declarations@ == state.known_variable_declarations@,
        r.derived_variable_declarations@ == state.derived_variable_declarations@,
        r.tracking_nodes@ == state.tracking_nodes@,
        match (state.result, r.result) {
            (Some(c0), Some(c1)) => {
                &&& c1.string_table@ == c0.string_table@
                // diagnostics: the compilation's own list, extended by one
                // error per null-default declaration, then de-duplicated in
                // order, keeping only first occurrences of raised findings
                &&& exists|ext: Seq<Diagnostic>|
                    #[trigger] diags_extended_by_null_defaults(
                        c0.diagnostics@,
                        state.known_variable_declarations@,
                        ext,
                    ) && c1.diagnostics@ == crate::diagnostic::dedup_filtered_spec(
                        ext,
                        r.diagnostics@,
                    )
                // the declaration set handed to tooling is the derived set
                &&& c1.declarations@.len() == state.derived_variable_declarations@.len()
                &&& forall|i: int| 0 <= i < c1.declarations@.len()
                    ==> crate::declaration::decl_eq(
                    #[trigger] c1.declarations@[i],
                    state.derived_variable_declarations@[i],
                )
                // registrations
                &&& match (c0.program, c1.program) {
                    (Some(p0), Some(p1)) => {
                        &&& p1.nodes@ == p0.nodes@
                        &&& forall|i: int|
                            0 <= i < state.known_variable_declarations@.len() ==> {
                                let d = #[trigger] state.known_variable_declarations@[i];
                                decl_registers(d, d.name@) ==> initial_value_spec(
                                    p1.initial_values@,
                                    d.name@,
                                ) == Some(operand_of_value(d.default_value->Some_0))
                            }
                        &&& forall|k: Seq<char>|
                            !known_decl_with_default(state.known_variable_declarations@, k)
                                ==> #[trigger] initial_value_spec(p1.initial_values@, k)
                                == initial_value_spec(p0.initial_values@, k)
                    },
                    (None, None) => true,
                    _ => false,
                }
            },
            (None, None) => true,
            _ => false,
        },
        // the diagnostics accumulated in the state grow by exactly the
        // null-default errors, in declaration order
        state.result is Some ==> diags_extended_by_null_defaults(
            state.diagnostics@,
            state.known_variable_declarations@,
            r.diagnostics@,
        ),
        state.result is None ==> r == state,
{
    let mut state = state;
    let mut compilation = match state.result {
        Some(c) => c,
        None => {
            return state;
        },
    };
    state.result = None;
    let ghost diags0 = state.diagnostics@;
    let ghost comp0 = compilation.diagnostics@;
    let ghost table0 = compilation.string_table@;
    let ghost known = state.known_variable_declarations@;
    let ghost derived_in = state.derived_variable_declarations@;
    let ghost tracking_in = state.tracking_nodes@;
    let n = state.known_variable_declarations.len();
    let mut program = compilation.program;
    compilation.program = None;
    let ghost prog0 = program;
    let ghost iv0 = match &program {
        Some(p) => p.initial_values@,
        None => Seq::<(String, crate::value::Operand)>::empty(),
    };
    let mut i: usize = 0;
    while i < n
        invariant
            n == state.known_variable_declarations@.len(),
            i <= n,
            known == state.known_variable_declarations@,
            state.derived_variable_declarations@ == derived_in,
            state.tracking_nodes@ == tracking_in,
            state.result is None,
            decls_ok(known),
            // diagnostics so far, mirrored on both lists
            state.diagnostics@.len() == diags0.len() + null_default_messages(
                known.subrange(0, i as int),
            ).len(),
            forall|j: int| 0 <= j < diags0.len() ==> state.diagnostics@[j] == diags0[j],
            forall|j: int| 0 <= j < null_default_messages(known.subrange(0, i as int)).len() ==> {
                let d = #[trigger] state.diagnostics@[diags0.len() + j];
                d.severity == DiagnosticSeverity::Error && d.position is None && d.message@
                    == null_default_messages(known.subrange(0, i as int))[j]
            },
            compilation.string_table@ == table0,
            compilation.diagnostics@.len() == comp0.len() + null_default_messages(
                known.subrange(0, i as int),
            ).len(),
            forall|j: int| 0 <= j < comp0.len() ==> compilation.diagnostics@[j] == comp0[j],
            forall|j: int| 0 <= j < null_default_messages(known.subrange(0, i as int)).len() ==> {
                let d = #[trigger] compilation.diagnostics@[comp0.len() + j];
                d.severity == DiagnosticSeverity::Error && d.position is None && d.message@
                    == null_default_messages(known.subrange(0, i as int))[j]
            },
            // program updates
            match (prog0, program) {
                (Some(p0), Some(p1)) => {
                    &&& p1.nodes@ == p0.nodes@
                    &&& p0.initial_values@ == iv0
                    &&& forall|j: int|
                        0 <= j < i ==> {
                            let d = #[trigger] known[j];
                            decl_registers(d, d.name@) ==> initial_value_spec(
                                p1.initial_values@,
                                d.name@,
                            ) == Some(operand_of_value(d.default_value->Some_0))
                        }
                    &&& forall|k: Seq<char>|
                        !prefix_decl_with_default(known, i as int, k)
                            ==> #[trigger] initial_value_spec(p1.initial_values@, k)
                            == initial_value_spec(iv0, k)
                },
                (None, None) => true,
                _ => false,
            },
        decreases n - i,
    {
        let ghost prefix = known.subrange(0, i as int);
        let ghost prefix1 = known.subrange(0, i + 1);
        proof {
            assert(prefix1.drop_last() =~= prefix);
            assert(prefix1.last() == known[i as int]);
        }
        let use_decl = match &state.known_variable_declarations[i].ty {
            Some(t) => !matches!(t, Type::Function { .. }),
            None => false,
        };
        if use_decl {
            match &state.known_variable_declarations[i].default_value {
                Some(v) => {
                    program = match program {
                        Some(mut p) => {
                            let name = state.known_variable_declarations[i].name.clone();
                            let op = crate::value::operand_from_value(v);
                            let ghost ivb = p.initial_values@;
                            p.initial_values.insert(0, (name, op));
                            proof {
                                assert(p.initial_values@.subrange(
                                    1,
                                    p.initial_values@.len() as int,
                                ) =~= ivb);
                                assert forall|k: Seq<char>| k != known[i as int].name@ implies
                                    #[trigger] initial_value_spec(p.initial_values@, k)
                                    == initial_value_spec(ivb, k) by {}
                                assert(initial_value_spec(p.initial_values@, known[i as int].name@)
                                    == Some(
                                    operand_of_value(known[i as int].default_value->Some_0),
                                ));
                            }
                            Some(p)
                        },
                        None => None,
                    };
                },
                None => {
                    let name_s = state.known_variable_declarations[i].name.clone();
                    let ty_name = match &state.known_variable_declarations[i].ty {
                        Some(t) => t.format_name(),
                        None => "Undefined",
                    };
                    let message = "Variable declaration ".to_owned().concat(name_s.as_str())
                        .concat(" (type ").concat(ty_name).concat(
                        ") has a null default value. This is not allowed.",
                    );
                    proof {
                        assert(message@ == null_default_message(
                            known[i as int].name@,
                            known[i as int].ty->Some_0,
                        ));
                    }
                    let diag = Diagnostic::from_message(message);
                    let diag2 = diag.clone();
                    compilation.diagnostics.push(diag2);
                    state.diagnostics.push(diag);
                },
            }
        }
        proof {
            lemma_prefix_decl_with_default_step(known, i as int);
        }
        i += 1;
    }
    proof {
        assert(known.subrange(0, n as int) =~= known);
    }
    // attach the derived declarations for downstream tooling
    let mut declarations: Vec<Declaration> = Vec::new();
    let dn = state.derived_variable_declarations.len();
    let mut j: usize = 0;
    while j < dn
        invariant
            dn == state.derived_variable_declarations@.len(),
            j <= dn,
            declarations@.len() == j,
            forall|a: int| 0 <= a < j ==> crate::declaration::decl_eq(
                #[trigger] declarations@[a],
                state.derived_variable_declarations@[a],
            ),
        decreases dn - j,
    {
        declarations.push(state.derived_variable_declarations[j].clone());
        j += 1;
    }
    compilation.declarations = declarations;
    compilation.program = program;
    // de-duplicate the compilation's list, keeping in order each first
    // occurrence that was raised during the passes
    let ghost ext = compilation.diagnostics@;
    proof {
        assert(diags_extended_by_null_defaults(comp0, known, ext));
    }
    let deduped = crate::diagnostic::deduplicate_raised(&compilation.diagnostics, &state.diagnostics);
    compilation.diagnostics = deduped;
    state.result = Some(compilation);
    state
}

/// Whether some declaration among the first `i` has the name `k`, a resolved
/// non-function type and a default value.
pub open spec fn prefix_decl_with_default(decls: Seq<Declaration>, i: int, k: Seq<char>) -> bool {
    exists|j: int| 0 <= j < i && #[trigger] decl_registers(decls[j], k)
}

/// Whether a declaration has the name `k`, a resolved non-function type and
/// a default value.
pub open spec fn decl_registers(d: Declaration, k: Seq<char>) -> bool {
    &&& d.name@ == k
    &&& d.ty matches Some(t) && !(t is Function)
    &&& d.default_value is Some
}

/// Whether some declaration has the name `k`, a resolved non-function type
/// and a default value.
pub open spec fn known_decl_with_default(decls: Seq<Declaration>, k: Seq<char>) -> bool {
    prefix_decl_with_default(decls, decls.len() as int, k)
}

proof fn lemma_prefix_decl_with_default_step(decls: Seq<Declaration>, i: int)
    requires
        0 <= i < decls.len(),
    ensures
        forall|k: Seq<char>| #[trigger] prefix_decl_with_default(decls, i + 1, k)
            <==> (prefix_decl_with_default(decls, i, k) || decl_registers(decls[i], k)),
{
    assert forall|k: Seq<char>| #[trigger] prefix_decl_with_default(decls, i + 1, k) implies (
    prefix_decl_with_default(decls, i, k) || decl_registers(decls[i], k)) by {
        let j = choose|j: int| 0 <= j < i + 1 && #[trigger] decl_registers(decls[j], k);
        if j < i {
            assert(prefix_decl_with_default(decls, i, k));
        }
    }
}

/// Whether `after` is `before` extended by exactly the null-default error
/// diagnostics of `decls`, in order.
pub open spec fn diags_extended_by_null_defaults(
    before: Seq<Diagnostic>,
    decls: Seq<Declaration>,
    after: Seq<Diagnostic>,
) -> bool {
    &&& after.len() == before.len() + null_default_messages(decls).len()
    &&& forall|j: int| 0 <= j < before.len() ==> after[j] == before[j]
    &&& forall|j: int| 0 <= j < null_default_messages(decls).len() ==> {
        let d = #[trigger] after[before.len() + j];
        d.severity == DiagnosticSeverity::Error && d.position is None && d.message@
            == null_default_messages(decls)[j]
    }
}

/// Whether the list holds an `Error`-severity diagnostic.
pub open spec fn has_error_spec(diags: Seq<Diagnostic>) -> bool {
    exists|i: int| 0 <= i < diags.len() && (#[trigger] diags[i]).severity
        == DiagnosticSeverity::Error
}

/// Decides `has_error_spec`.
pub fn has_error_diag(diags: &Vec<Diagnostic>) -> (r: bool)
    ensures
        r == has_error_spec(diags@),
{
    let n = diags.len();
    let mut i: usize = 0;
    while i < n
        invariant
            n == diags@.len(),
            i <= n,
            forall|j: int| 0 <= j < i ==> (#[trigger] diags@[j]).severity
                != DiagnosticSeverity::Error,
        decreases n - i,
    {
        if matches!(diags[i].severity, DiagnosticSeverity::Error) {
            return true;
        }
        i += 1;
    }
    false
}

/// The index of the declaration with this name, if any.
pub(crate) fn find_decl_index(decls: &Vec<Declaration>, name: &str) -> (r: Option<usize>)
    ensures
        r matches Some(i) ==> i < decls@.len() && decls@[i as int].name@ == name@,
        r is None ==> forall|j: int| 0 <= j < decls@.len() ==> (#[trigger] decls@[j]).name@
            != name@,
{
    let n = decls.len();
    let mut i: usize = 0;
    while i < n
        invariant
            n == decls@.len(),
            i <= n,
            forall|j: int| 0 <= j < i ==> (#[trigger] decls@[j]).name@ != name@,
        decreases n - i,
    {
        if crate::util::str_eq(decls[i].name.as_str(), name) {
            return Some(i);
        }
        i += 1;
    }
    None
}

/// Pass: discovers every explicit variable declaration across all parsed
/// nodes.  A redeclared name, a reserved name (one holding `'.'`), or a
/// repeated declaration becomes an `Error` diagnostic and is skipped, so the
/// discovered list stays consistent.
pub(crate) fn discover_declarations(
    nodes: &Vec<crate::parser::ParsedNode>,
    known: &mut Vec<Declaration>,
    diags: &mut Vec<Diagnostic>,
)
    requires
        decls_ok(old(known)@),
        forall|i: int| 0 <= i < old(known)@.len() ==> !(#[trigger] old(known)@[i]).name@.contains(
            '.',
        ),
    ensures
        decls_ok(final(known)@),
        forall|i: int| 0 <= i < final(known)@.len() ==> !(
        #[trigger] final(known)@[i]).name@.contains('.'),
        nodes@.len() == 0 ==> final(known)@ == old(known)@ && final(diags)@ == old(diags)@,
{
    let ghost known_in = known@;
    let ghost diags_in2 = diags@;
    let nn = nodes.len();
    let mut a: usize = 0;
    while a < nn
        invariant
            nn == nodes@.len(),
            a <= nn,
            decls_ok(known@),
            forall|i: int| 0 <= i < known@.len() ==> !(#[trigger] known@[i]).name@.contains('.'),
            nn == 0 ==> known@ == known_in && diags@ == diags_in2,
        decreases nn - a,
    {
        let sn = nodes[a].statements.len();
        let mut b: usize = 0;
        while b < sn
            invariant
                a < nn == nodes@.len(),
                sn == nodes@[a as int].statements@.len(),
                b <= sn,
                decls_ok(known@),
                forall|i: int| 0 <= i < known@.len() ==> !(#[trigger] known@[i]).name@.contains(
                    '.',
                ),
            decreases sn - b,
        {
            match &nodes[a].statements[b] {
                crate::parser::Stmt::Declare { variable, value, line } => {
                    if crate::util::name_has_dot(variable.as_str()) {
                        diags.push(
                            Diagnostic::from_message(
                                "Variable names may not hold a period: ".to_owned().concat(
                                    variable.as_str(),
                                ),
                            ),
                        );
                    } else {
                        match find_decl_index(known, variable.as_str()) {
                            Some(_) => {
                                diags.push(
                                    Diagnostic::from_message(
                                        "Redeclaration of variable ".to_owned().concat(
                                            variable.as_str(),
                                        ),
                                    ),
                                );
                            },
                            None => {
                                let ty = value.value_type();
                                let decl = Declaration {
                                    name: variable.clone(),
                                    ty: Some(ty),
                                    default_value: Some(value.clone()),
                                    description: String::new(),
                                    source: DeclarationSource::Explicit,
                                };
                                let ghost dv = decl;
                                let ghost ks0 = known@;
                                known.push(decl);
                                proof {
                                    assert(known@ =~= ks0.push(dv));
                                    assert(known@[known@.len() - 1] == dv);
                                    assert forall|i: int, j: int|
                                        0 <= i < j < known@.len() implies known@[i].name@
                                        != known@[j].name@ by {
                                        if j == known@.len() - 1 {
                                            assert(known@[i] == ks0[i]);
                                        } else {
                                            assert(known@[i] == ks0[i] && known@[j] == ks0[j]);
                                        }
                                    }
                                    assert forall|i: int| 0 <= i < known@.len() implies
                                        basic_decl_ok(#[trigger] known@[i]) by {
                                        if i < ks0.len() {
                                            assert(known@[i] == ks0[i]);
                                        }
                                    }
                                }
                            },
                        }
                    }
                },
                _ => {},
            }
            b += 1;
        }
        a += 1;
    }
}

/// Pass: checks every assignment and condition against the declarations and
/// the library, accumulating `Error` diagnostics for undeclared variables,
/// unresolved functions, argument-count mismatches and type mismatches.
pub(crate) fn check_types(
    nodes: &Vec<crate::parser::ParsedNode>,
    known: &Vec<Declaration>,
    library: &Library,
    diags: &mut Vec<Diagnostic>,
)
    ensures
        nodes@.len() == 0 ==> final(diags)@ == old(diags)@,
{
    let ghost diags_in2 = diags@;
    let nn = nodes.len();
    let mut a: usize = 0;
    while a < nn
        invariant
            nn == nodes@.len(),
            a <= nn,
            nn == 0 ==> diags@ == diags_in2,
        decreases nn - a,
    {
        let sn = nodes[a].statements.len();
        let mut b: usize = 0;
        while b < sn
            invariant
                a < nn == nodes@.len(),
                sn == nodes@[a as int].statements@.len(),
                b <= sn,
            decreases sn - b,
        {
            match &nodes[a].statements[b] {
                crate::parser::Stmt::SetVar { variable, value, .. } => {
                    let value_ty = infer_expr_type(value, known, library, diags);
                    match find_decl_index(known, variable.as_str()) {
                        Some(i) => {
                            match &known[i].ty {
                                Some(t) => {
                                    let basic = matches!(
                                        t,
                                        Type::String | Type::Number | Type::Boolean | Type::Any,
                                    );
                                    if basic && !matches!(value_ty, Type::Undefined) {
                                        if !crate::types::SubTypeOf::is_sub_type_of(&value_ty, t) {
                                            diags.push(
                                                Diagnostic::from_message(
                                                    "Type mismatch in assignment to "
                                                        .to_owned().concat(variable.as_str()),
                                                ),
                                            );
                                        }
                                    }
                                },
                                None => {},
                            }
                        },
                        None => {
                            diags.push(
                                Diagnostic::from_message(
                                    "Undeclared variable ".to_owned().concat(variable.as_str()),
                                ),
                            );
                        },
                    }
                },
                crate::parser::Stmt::OptionLine { condition, .. } => {
                    match condition {
                        Some(e) => {
                            let t = infer_expr_type(e, known, library, diags);
                            if !matches!(t, Type::Boolean | Type::Any | Type::Undefined) {
                                diags.push(
                                    Diagnostic::from_message(
                                        "An option condition must be a boolean".to_owned(),
                                    ),
                                );
                            }
                        },
                        None => {},
                    }
                },
                _ => {},
            }
            b += 1;
        }
        a += 1;
    }
}

/// The type of an expression; `Undefined` after an error, which is already
/// diagnosed.
pub(crate) fn infer_term_type(
    term: &crate::parser::Term,
    known: &Vec<Declaration>,
    diags: &mut Vec<Diagnostic>,
) -> Type {
    match term {
        crate::parser::Term::Lit(v) => v.value_type(),
        crate::parser::Term::Var(name) => {
            match find_decl_index(known, name.as_str()) {
                Some(i) => {
                    match &known[i].ty {
                        Some(t) => t.clone(),
                        None => Type::Undefined,
                    }
                },
                None => {
                    diags.push(
                        Diagnostic::from_message(
                            "Undeclared variable ".to_owned().concat(name.as_str()),
                        ),
                    );
                    Type::Undefined
                },
            }
        },
    }
}

/// The type of an expression; `Undefined` after an error, which is already
/// diagnosed.
pub(crate) fn infer_expr_type(
    expr: &crate::parser::Expr,
    known: &Vec<Declaration>,
    library: &Library,
    diags: &mut Vec<Diagnostic>,
) -> Type {
    match expr {
        crate::parser::Expr::Lit(v) => v.value_type(),
        crate::parser::Expr::Var(name) => {
            infer_term_type(&crate::parser::Term::Var(name.clone()), known, diags)
        },
        crate::parser::Expr::Call(name, args) => {
            match library.resolve(name.as_str()) {
                Some(c) => {
                    let params = c.param_types();
                    if params.len() != args.len() {
                        diags.push(
                            Diagnostic::from_message(
                                "Wrong number of arguments for ".to_owned().concat(name.as_str()),
                            ),
                        );
                        return Type::Undefined;
                    }
                    let n = args.len();
                    let mut i: usize = 0;
                    while i < n
                        invariant
                            n == args@.len(),
                            n == params@.len(),
                            i <= n,
                        decreases n - i,
                    {
                        let at = infer_term_type(&args[i], known, diags);
                        let pt = &params[i];
                        let basic = matches!(
                            pt,
                            Type::String | Type::Number | Type::Boolean | Type::Any,
                        );
                        if basic && !matches!(at, Type::Undefined) {
                            if !crate::types::SubTypeOf::is_sub_type_of(&at, pt) {
                                diags.push(
                                    Diagnostic::from_message(
                                        "Argument type mismatch for ".to_owned().concat(
                                            name.as_str(),
                                        ),
                                    ),
                                );
                            }
                        }
                        i += 1;
                    }
                    c.return_type()
                },
                None => {
                    diags.push(
                        Diagnostic::from_message(
                            "Unknown function ".to_owned().concat(name.as_str()),
                        ),
                    );
                    Type::Undefined
                },
            }
        },
    }
}

/// Emits the instructions that evaluate an expression onto the stack.
pub(crate) fn emit_expr(expr: &crate::parser::Expr, insts: &mut Vec<crate::program::Instruction>) {
    match expr {
        crate::parser::Expr::Lit(v) => {
            emit_push_value(v, insts);
        },
        crate::parser::Expr::Var(name) => {
            insts.push(crate::program::Instruction::LoadVariable(name.clone()));
        },
        crate::parser::Expr::Call(name, args) => {
            let n = args.len();
            let mut i: usize = 0;
            while i < n
                invariant
                    n == args@.len(),
                    i <= n,
                decreases n - i,
            {
                match &args[i] {
                    crate::parser::Term::Lit(v) => {
                        emit_push_value(v, insts);
                    },
                    crate::parser::Term::Var(vn) => {
                        insts.push(crate::program::Instruction::LoadVariable(vn.clone()));
                    },
                }
                i += 1;
            }
            insts.push(crate::program::Instruction::CallFunc(name.clone()));
        },
    }
}

/// Emits the push of one literal.
pub(crate) fn emit_push_value(v: &YarnValue, insts: &mut Vec<crate::program::Instruction>) {
    match v {
        YarnValue::Str(s) => {
            insts.push(crate::program::Instruction::PushString(s.clone()));
        },
        YarnValue::Number(n) => {
            insts.push(crate::program::Instruction::PushNumber(*n));
        },
        YarnValue::Bool(b) => {
            insts.push(crate::program::Instruction::PushBool(*b));
        },
    }
}

/// Pass: generates bytecode for every parsed node and registers each line's
/// and option's text in the string table under a fresh line identifier.
pub(crate) fn generate_program(
    nodes: &Vec<crate::parser::ParsedNode>,
    string_table: &mut Vec<StringInfo>,
) -> (r: Program)
    ensures
        r.nodes@.len() == nodes@.len(),
        forall|i: int| 0 <= i < nodes@.len() ==> (#[trigger] r.nodes@[i]).name@
            == nodes@[i].title@,
        r.initial_values@.len() == 0,
        nodes@.len() == 0 ==> final(string_table)@ == old(string_table)@,
{
    let ghost table_in = string_table@;
    let mut out_nodes: Vec<crate::program::Node> = Vec::new();
    let nn = nodes.len();
    let mut a: usize = 0;
    while a < nn
        invariant
            nn == nodes@.len(),
            a <= nn,
            out_nodes@.len() == a,
            forall|i: int| 0 <= i < a ==> (#[trigger] out_nodes@[i]).name@ == nodes@[i].title@,
            nn == 0 ==> string_table@ == table_in,
        decreases nn - a,
    {
        let node = &nodes[a];
        let mut insts: Vec<crate::program::Instruction> = Vec::new();
        let mut labels: Vec<(String, usize)> = Vec::new();
        let mut line_counter: usize = 0;
        let mut label_counter: usize = 0;
        let mut group_label: Option<String> = None;
        let sn = node.statements.len();
        let mut b: usize = 0;
        while b < sn
            invariant
                a < nn == nodes@.len(),
                *node == nodes@[a as int],
                sn == nodes@[a as int].statements@.len(),
                b <= sn,
                line_counter <= b,
                label_counter <= b,
            decreases sn - b,
        {
            let is_option = matches!(
                &node.statements[b],
                crate::parser::Stmt::OptionLine { .. },
            );
            if !is_option {
                // a pending option group ends before any other statement
                if let Some(l) = group_label {
                    insts.push(crate::program::Instruction::ShowOptions);
                    labels.push((l, insts.len()));
                    group_label = None;
                }
            }
            match &node.statements[b] {
                crate::parser::Stmt::OptionLine { text, condition, line_id, tags, line } => {
                    let label = match group_label {
                        Some(l) => l,
                        None => {
                            let l = "options_done_".to_owned().concat(
                                crate::util::usize_to_string(label_counter).as_str(),
                            );
                            label_counter = label_counter + 1;
                            l
                        },
                    };
                    let id = register_string(
                        string_table,
                        node.title.as_str(),
                        text.as_str(),
                        *line,
                        line_counter,
                        line_id,
                        tags,
                    );
                    line_counter = line_counter + 1;
                    let has_condition = match condition {
                        Some(e) => {
                            emit_expr(e, &mut insts);
                            true
                        },
                        None => false,
                    };
                    insts.push(
                        crate::program::Instruction::AddOption {
                            line_id: id,
                            destination: label.clone(),
                            has_condition,
                        },
                    );
                    group_label = Some(label);
                },
                crate::parser::Stmt::Line { text, line_id, tags, line } => {
                    let id = register_string(
                        string_table,
                        node.title.as_str(),
                        text.as_str(),
                        *line,
                        line_counter,
                        line_id,
                        tags,
                    );
                    line_counter = line_counter + 1;
                    insts.push(crate::program::Instruction::RunLine(id));
                },
                crate::parser::Stmt::SetVar { variable, value, .. } => {
                    emit_expr(value, &mut insts);
                    insts.push(crate::program::Instruction::StoreVariable(variable.clone()));
                },
                crate::parser::Stmt::Declare { .. } => {},
                crate::parser::Stmt::Command { text, .. } => {
                    insts.push(crate::program::Instruction::RunCommand(text.clone()));
                },
                crate::parser::Stmt::JumpToNode { node: target, .. } => {
                    insts.push(crate::program::Instruction::RunNode(target.clone()));
                },
                crate::parser::Stmt::StopHere { .. } => {
                    insts.push(crate::program::Instruction::Stop);
                },
            }
            b += 1;
        }
        if let Some(l) = group_label {
            insts.push(crate::program::Instruction::ShowOptions);
            labels.push((l, insts.len()));
        }
        let mut headers: Vec<crate::program::Header> = Vec::new();
        let hn = node.headers.len();
        let mut h: usize = 0;
        while h < hn
            invariant
                a < nn == nodes@.len(),
                *node == nodes@[a as int],
                hn == nodes@[a as int].headers@.len(),
                h <= hn,
            decreases hn - h,
        {
            headers.push(node.headers[h].clone());
            h += 1;
        }
        out_nodes.push(
            crate::program::Node { name: node.title.clone(), instructions: insts, headers, labels },
        );
        a += 1;
    }
    Program { nodes: out_nodes, initial_values: Vec::new() }
}

/// Registers a line's text and tags under its explicit identifier, or under
/// a fresh one derived from the node name and a counter.
pub(crate) fn register_string(
    string_table: &mut Vec<StringInfo>,
    node_name: &str,
    text: &str,
    line_number: usize,
    counter: usize,
    explicit_id: &Option<String>,
    tags: &Vec<String>,
) -> LineId {
    let id = match explicit_id {
        Some(given) => LineId(given.clone()),
        None => LineId(
            "line:".to_owned().concat(node_name).concat("-").concat(
                crate::util::usize_to_string(counter).as_str(),
            ),
        ),
    };
    let mut stored_tags: Vec<String> = Vec::new();
    let tn = tags.len();
    let mut t: usize = 0;
    while t < tn
        invariant
            tn == tags@.len(),
        decreases tn - t,
    {
        stored_tags.push(tags[t].clone());
        t += 1;
    }
    string_table.push(
        StringInfo {
            id: id.clone(),
            text: text.to_owned(),
            node_name: node_name.to_owned(),
            line_number,
            tags: stored_tags,
        },
    );
    id
}

/// Compiles one or more source texts against a function library.
#[derive(Debug)]
pub struct Compiler {
    pub files: Vec<YarnFile>,
    pub library: Library,
}

impl Compiler {
    /// A compiler with no sources and an empty library.
    pub fn new() -> (r: Self)
        ensures
            r.files@.len() == 0,
            r.library.entries@.len() == 0,
    {
        Compiler { files: Vec::new(), library: Library::new() }
    }

    /// Adds one in-memory source text.
    pub fn add_file(self, file_name: &str, source: &str) -> (r: Self)
        ensures
            r.files@.len() == self.files@.len() + 1,
            forall|i: int| 0 <= i < self.files@.len() ==> r.files@[i] == self.files@[i],
            r.files@[self.files@.len() as int].file_name@ == file_name@,
            r.files@[self.files@.len() as int].source@ == source@,
            r.library == self.library,
    {
        let mut files = self.files;
        files.push(YarnFile { file_name: file_name.to_owned(), source: source.to_owned() });
        Compiler { files, library: self.library }
    }

    /// A compiler over one plain body, wrapped into a node titled `Start`.
    pub fn from_test_source(source: &str) -> (r: Self)
        ensures
            r.files@.len() == 1,
            r.files@[0].source@ == "title: Start\n---\n"@ + source@ + "\n===\n"@,
            r.library.entries@.len() == 0,
    {
        let wrapped = "title: Start\n---\n".to_owned().concat(source).concat("\n===\n");
        Compiler::new().add_file("test", wrapped.as_str())
    }

    /// Makes the given library's registrations available to the compiler and
    /// the checker; its names take precedence over earlier ones.
    pub fn extend_library(self, library: Library) -> (r: Self)
        ensures
            r.files@ == self.files@,
            forall|k: Seq<char>| #[trigger] crate::library::resolve_spec(r.library.entries@, k)
                == (match crate::library::resolve_spec(library.entries@, k) {
                Some(c) => Some(c),
                None => crate::library::resolve_spec(self.library.entries@, k),
            }),
    {
        let ghost front = library.entries@;
        let ghost back = self.library.entries@;
        let mut entries = library.entries;
        let rest = self.library.entries;
        let n = rest.len();
        let mut i: usize = 0;
        while i < n
            invariant
                n == rest@.len(),
                rest@ == back,
                entries@.len() == front.len() + i,
                i <= n,
                forall|j: int| 0 <= j < front.len() ==> entries@[j] == front[j],
                forall|j: int| 0 <= j < i ==> entries@[front.len() + j] == back[j],
            decreases n - i,
        {
            entries.push((rest[i].0.clone(), rest[i].1));
            i += 1;
        }
        proof {
            assert(entries@ =~= front + back);
            assert forall|k: Seq<char>| #[trigger] crate::library::resolve_spec(entries@, k) == (
            match crate::library::resolve_spec(front, k) {
                Some(c) => Some(c),
                None => crate::library::resolve_spec(back, k),
            }) by {
                crate::library::lemma_resolve_concat(front, back, k);
            }
        }
        Compiler { files: self.files, library: Library { entries } }
    }

    /// Runs the pipeline: parsing, declaration discovery, type checking,
    /// tracking-declaration synthesis, bytecode generation, and the final
    /// registration and de-duplication pass.  The result carries a usable
    /// program exactly when no `Error` diagnostic was raised; a usable
    /// program's node names are unique, and compiling nothing succeeds with
    /// an empty program and no findings.
    pub fn compile(self) -> (r: Compilation)
        ensures
            has_error_spec(r.diagnostics@) <==> r.program is None,
            crate::diagnostic::diag_dup_free(r.diagnostics@),
            r.program matches Some(p) ==> forall|i: int, j: int|
                0 <= i < j < p.nodes@.len() ==> p.nodes@[i].name@ != p.nodes@[j].name@,
            self.files@.len() == 0 ==> {
                &&& r.program matches Some(p) && p.nodes@.len() == 0
                &&& r.diagnostics@.len() == 0
                &&& r.string_table@.len() == 0
            },
    {
        let mut diags: Vec<Diagnostic> = Vec::new();
        let mut parsed: Vec<crate::parser::ParsedNode> = Vec::new();
        let fnn = self.files.len();
        let mut f: usize = 0;
        while f < fnn
            invariant
                fnn == self.files@.len(),
                f <= fnn,
                fnn == 0 ==> parsed@.len() == 0 && diags@.len() == 0,
            decreases fnn - f,
        {
            let mut nodes = crate::parser::parse_source(self.files[f].source.as_str(), &mut diags);
            let nn = nodes.len();
            let mut k: usize = 0;
            while k < nn
                invariant
                    k <= nn,
                    nodes@.len() + k == nn,
                decreases nn - k,
            {
                let node = nodes.remove(0);
                parsed.push(node);
                k += 1;
            }
            f += 1;
        }
        let mut known: Vec<Declaration> = Vec::new();
        discover_declarations(&parsed, &mut known, &mut diags);
        check_types(&parsed, &known, &self.library, &mut diags);
        // two nodes with one title are a compile error
        let ghost diags_checked = diags@;
        let mut seen_titles: Vec<String> = Vec::new();
        let pn = parsed.len();
        let mut q: usize = 0;
        while q < pn
            invariant
                pn == parsed@.len(),
                q <= pn,
                pn == 0 ==> diags@ == diags_checked,
                parsed@.len() == 0 ==> seen_titles@.len() == 0,
                forall|i: int| 0 <= i < q ==> exists|v: int|
                    0 <= v < seen_titles@.len() && (#[trigger] parsed@[i]).title@
                        == seen_titles@[v]@,
                forall|v: int| 0 <= v < seen_titles@.len() ==> exists|i: int|
                    0 <= i < q && (#[trigger] seen_titles@[v])@ == parsed@[i].title@,
                (forall|i: int, j: int| 0 <= i < j < q ==> parsed@[i].title@
                    != parsed@[j].title@) || has_error_spec(diags@),
            decreases pn - q,
        {
            let ghost diags_q = diags@;
            if crate::util::contains_string(&seen_titles, parsed[q].title.as_str()) {
                diags.push(
                    Diagnostic::from_message(
                        "More than one node is titled ".to_owned().concat(
                            parsed[q].title.as_str(),
                        ),
                    ),
                );
                proof {
                    assert(diags@[diags@.len() - 1].severity == DiagnosticSeverity::Error);
                    assert(has_error_spec(diags@));
                }
            } else {
                let ghost st0 = seen_titles@;
                seen_titles.push(parsed[q].title.clone());
                proof {
                    assert(seen_titles@[seen_titles@.len() - 1]@ == parsed@[q as int].title@);
                    assert forall|i: int| 0 <= i < q + 1 implies exists|v: int|
                        0 <= v < seen_titles@.len() && (#[trigger] parsed@[i]).title@
                            == seen_titles@[v]@ by {
                        if i < q {
                            let v = choose|v: int|
                                0 <= v < st0.len() && parsed@[i].title@ == st0[v]@;
                            assert(seen_titles@[v] == st0[v]);
                        } else {
                            assert(parsed@[i].title@ == seen_titles@[seen_titles@.len() - 1]@);
                        }
                    }
                    if (forall|i: int, j: int| 0 <= i < j < q ==> parsed@[i].title@
                        != parsed@[j].title@) {
                        assert forall|i: int, j: int| 0 <= i < j < q + 1 implies parsed@[i].title@
                            != parsed@[j].title@ by {
                            if j == q {
                                if parsed@[i].title@ == parsed@[q as int].title@ {
                                    let v = choose|v: int|
                                        0 <= v < st0.len() && parsed@[i].title@ == st0[v]@;
                                    assert(st0[v]@ == parsed@[q as int].title@);
                                }
                            }
                        }
                    } else {
                        assert(has_error_spec(diags_q));
                        let e = choose|e: int|
                            0 <= e < diags_q.len() && (#[trigger] diags_q[e]).severity
                                == DiagnosticSeverity::Error;
                        assert(diags@[e] == diags_q[e]);
                        assert(has_error_spec(diags@));
                    }
                }
            }
            q += 1;
        }
        let ghost titles_ok = forall|i: int, j: int|
            0 <= i < j < parsed@.len() ==> parsed@[i].title@ != parsed@[j].title@;
        let ghost diags_titled = diags@;
        // nodes flagged for visit tracking, each once
        let mut tracking: Vec<String> = Vec::new();
        let mut t: usize = 0;
        while t < pn
            invariant
                pn == parsed@.len(),
                t <= pn,
                pn == 0 ==> tracking@.len() == 0,
                forall|i: int, j: int| 0 <= i < j < tracking@.len() ==> tracking@[i]@
                    != tracking@[j]@,
            decreases pn - t,
        {
            if parsed[t].tracking {
                if !crate::util::contains_string(&tracking, parsed[t].title.as_str()) {
                    let ghost tr0 = tracking@;
                    tracking.push(parsed[t].title.clone());
                    proof {
                        assert forall|i: int, j: int|
                            0 <= i < j < tracking@.len() implies tracking@[i]@
                            != tracking@[j]@ by {
                            if j == tracking@.len() - 1 {
                                assert(tracking@[i] == tr0[i]);
                            } else {
                                assert(tracking@[i] == tr0[i] && tracking@[j] == tr0[j]);
                            }
                        }
                    }
                }
            }
            t += 1;
        }
        let mut string_table: Vec<StringInfo> = Vec::new();
        let program = generate_program(&parsed, &mut string_table);
        let comp_diags = crate::diagnostic::clone_diagnostics(&diags);
        let state0 = CompilationIntermediate {
            known_variable_declarations: known,
            derived_variable_declarations: Vec::new(),
            tracking_nodes: tracking,
            diagnostics: diags,
            result: Some(
                Compilation {
                    program: Some(program),
                    diagnostics: comp_diags,
                    string_table,
                    declarations: Vec::new(),
                },
            ),
        };
        let state1 = add_tracking_declarations(state0);
        let state2 = add_initial_value_registrations(state1);
        let mut compilation = match state2.result {
            Some(c) => c,
            None => {
                proof {
                    assert(false);
                }
                return Compilation {
                    program: None,
                    diagnostics: Vec::new(),
                    string_table: Vec::new(),
                    declarations: Vec::new(),
                };
            },
        };
        let err = has_error_diag(&compilation.diagnostics);
        proof {
            let c0 = state1.result->Some_0;
            let ext = choose|ext: Seq<Diagnostic>|
                #[trigger] diags_extended_by_null_defaults(
                    c0.diagnostics@,
                    state1.known_variable_declarations@,
                    ext,
                ) && compilation.diagnostics@ == crate::diagnostic::dedup_filtered_spec(
                    ext,
                    state2.diagnostics@,
                );
            crate::diagnostic::lemma_dedup_filtered_dup_free(ext, state2.diagnostics@);
            if !err && !titles_ok {
                // the duplicate-title error was raised and survives the
                // final de-duplication, a contradiction
                let e = choose|e: int|
                    0 <= e < diags_titled.len() && (#[trigger] diags_titled[e]).severity
                        == DiagnosticSeverity::Error;
                assert(c0.diagnostics@[e] == diags_titled[e]);
                assert(ext[e] == diags_titled[e]);
                assert(state2.diagnostics@[e] == diags_titled[e]);
                assert(crate::diagnostic::contains_diag(ext, diags_titled[e]));
                assert(crate::diagnostic::contains_diag(state2.diagnostics@, diags_titled[e]));
                crate::diagnostic::lemma_dedup_filtered_membership(
                    ext,
                    state2.diagnostics@,
                    diags_titled[e],
                );
                let w = choose|w: int|
                    0 <= w < compilation.diagnostics@.len() && crate::diagnostic::diag_eq(
                        compilation.diagnostics@[w],
                        diags_titled[e],
                    );
                assert(compilation.diagnostics@[w].severity == DiagnosticSeverity::Error);
                assert(has_error_spec(compilation.diagnostics@));
            }
            if self.files@.len() == 0 {
                assert(state1.known_variable_declarations@.len() == 0);
                assert(null_default_messages(state1.known_variable_declarations@).len() == 0);
                assert(c0.diagnostics@.len() == 0);
                assert(ext =~= Seq::<Diagnostic>::empty());
                assert(crate::diagnostic::dedup_filtered_spec(
                    Seq::<Diagnostic>::empty(),
                    state2.diagnostics@,
                ) =~= Seq::<Diagnostic>::empty());
                assert(compilation.diagnostics@.len() == 0);
            }
        }
        if err {
            compilation.program = None;
        }
        compilation
    }
}

impl Default for Compiler {
    /// The default compiler has no sources and an empty library.
    fn default() -> (r: Self)
        ensures
            r.files@.len() == 0,
    {
        Compiler { files: Vec::new(), library: Library::new() }
    }
}

} // verus!
