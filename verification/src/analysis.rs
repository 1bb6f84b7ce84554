//! Static analysis over a compiled program: flags variables that are
//! assigned but never read.

use vstd::prelude::*;

verus! {

use crate::program::{Instruction, Program};

/// How severe an analysis finding is.
#[derive(Debug, Clone, Copy, PartialEq, Eq, Structural)]
pub enum DiagnosisSeverity {
    Error,
    Warning,
}

/// One analysis finding.
#[derive(Debug)]
pub struct Diagnosis {
    pub severity: DiagnosisSeverity,
    pub message: String,
}

/// The variable an instruction stores to, if it is a store.
pub open spec fn store_name(inst: Instruction) -> Option<Seq<char>> {
    match inst {
        Instruction::StoreVariable(s) => Some(s@),
        _ => None,
    }
}

/// The variable an instruction loads, if it is a load.
pub open spec fn load_name(inst: Instruction) -> Option<Seq<char>> {
    match inst {
        Instruction::LoadVariable(s) => Some(s@),
        _ => None,
    }
}

/// Whether some instruction of the program stores to the named variable.
pub open spec fn any_store(p: Program, name: Seq<char>) -> bool {
    exists|a: int, b: int|
        0 <= a < p.nodes@.len() && 0 <= b < p.nodes@[a].instructions@.len() && store_name(
            #[trigger] p.nodes@[a].instructions@[b],
        ) == Some(name)
}

/// Whether some instruction of the program loads the named variable.
pub open spec fn any_load(p: Program, name: Seq<char>) -> bool {
    exists|a: int, b: int|
        0 <= a < p.nodes@.len() && 0 <= b < p.nodes@[a].instructions@.len() && load_name(
            #[trigger] p.nodes@[a].instructions@[b],
        ) == Some(name)
}

/// The message warning that a variable is assigned but never read.
pub open spec fn unread_warning_message(name: Seq<char>) -> Seq<char> {
    "Variable "@ + name + " is assigned, but never read from"@
}

/// Distinct variables get distinct warnings.
pub proof fn lemma_unread_message_injective(a: Seq<char>, b: Seq<char>)
    requires
        a != b,
    ensures
        unread_warning_message(a) != unread_warning_message(b),
{
    let p = "Variable "@;
    let s = " is assigned, but never read from"@;
    if unread_warning_message(a) == unread_warning_message(b) {
        assert((p + a + s).subrange(p.len() as int, (p.len() + a.len()) as int) =~= a);
        assert((p + b + s).subrange(p.len() as int, (p.len() + b.len()) as int) =~= b);
    }
}

/// Whether a diagnosis is a warning that some variable of the program is
/// stored to but never loaded.
pub open spec fn warns_unread(p: Program, d: Diagnosis) -> bool {
    &&& d.severity == DiagnosisSeverity::Warning
    &&& exists|name: Seq<char>|
        #![trigger unread_warning_message(name)]
        any_store(p, name) && !any_load(p, name) && d.message@ == unread_warning_message(name)
}

/// Whether the list holds a string with these characters.
pub open spec fn contains_str(v: Seq<String>, s: Seq<char>) -> bool {
    exists|i: int| 0 <= i < v.len() && (#[trigger] v[i])@ == s
}

/// Every load instruction among the first `a` nodes (and, within node `a`,
/// the first `b` instructions) has its variable in `loaded`.
pub open spec fn loads_covered(p: Program, a: int, b: int, loaded: Seq<String>) -> bool {
    forall|x: int, y: int|
        0 <= x < p.nodes@.len() && 0 <= y < p.nodes@[x].instructions@.len() && (x < a || (x == a
            && y < b)) ==> match load_name(#[trigger] p.nodes@[x].instructions@[y]) {
            Some(nm) => contains_str(loaded, nm),
            None => true,
        }
}

/// Every store instruction among the first `a` nodes (and, within node `a`,
/// the first `b` instructions) has its variable in `stored`.
pub open spec fn stores_covered(p: Program, a: int, b: int, stored: Seq<String>) -> bool {
    forall|x: int, y: int|
        0 <= x < p.nodes@.len() && 0 <= y < p.nodes@[x].instructions@.len() && (x < a || (x == a
            && y < b)) ==> match store_name(#[trigger] p.nodes@[x].instructions@[y]) {
            Some(nm) => contains_str(stored, nm),
            None => true,
        }
}

/// Runs the unused-variable analysis over a compiled program.  The result
/// holds exactly one `Warning` for every variable that some instruction
/// assigns and no instruction reads, each naming its variable, and nothing
/// else.
pub fn analyse(program: &Program) -> (r: Vec<Diagnosis>)
    ensures
        forall|k: int| 0 <= k < r@.len() ==> warns_unread(*program, #[trigger] r@[k]),
        forall|name: Seq<char>|
            #![trigger unread_warning_message(name)]
            any_store(*program, name) && !any_load(*program, name) ==> exists|k: int|
                0 <= k < r@.len() && r@[k].message@ == unread_warning_message(name),
        forall|k: int, l: int| 0 <= k < l < r@.len() ==> r@[k].message@ != r@[l].message@,
{
    let mut stored: Vec<String> = Vec::new();
    let mut loaded: Vec<String> = Vec::new();
    let nn = program.nodes.len();
    let mut a: usize = 0;
    while a < nn
        invariant
            nn == program.nodes@.len(),
            a <= nn,
            forall|i: int| 0 <= i < stored@.len() ==> any_store(
                *program,
                (#[trigger] stored@[i])@,
            ),
            forall|i: int| 0 <= i < loaded@.len() ==> any_load(
                *program,
                (#[trigger] loaded@[i])@,
            ),
            forall|i: int, j: int| 0 <= i < j < stored@.len() ==> stored@[i]@ != stored@[j]@,
            loads_covered(*program, a as int, 0, loaded@),
            stores_covered(*program, a as int, 0, stored@),
        decreases nn - a,
    {
        let sn = program.nodes[a].instructions.len();
        let mut b: usize = 0;
        while b < sn
            invariant
                a < nn == program.nodes@.len(),
                sn == program.nodes@[a as int].instructions@.len(),
                b <= sn,
                forall|i: int| 0 <= i < stored@.len() ==> any_store(
                    *program,
                    (#[trigger] stored@[i])@,
                ),
                forall|i: int| 0 <= i < loaded@.len() ==> any_load(
                    *program,
                    (#[trigger] loaded@[i])@,
                ),
                forall|i: int, j: int| 0 <= i < j < stored@.len() ==> stored@[i]@ != stored@[j]@,
                loads_covered(*program, a as int, b as int, loaded@),
                stores_covered(*program, a as int, b as int, stored@),
            decreases sn - b,
        {
            let ghost loaded0 = loaded@;
            let ghost stored0 = stored@;
            match &program.nodes[a].instructions[b] {
                Instruction::StoreVariable(name) => {
                    if !crate::util::contains_string(&stored, name.as_str()) {
                        let ghost st0 = stored@;
                        stored.push(name.clone());
                        proof {
                            assert(stored@[stored@.len() - 1]@ == name@);
                            assert forall|i: int| 0 <= i < stored@.len() implies any_store(
                                *program,
                                (#[trigger] stored@[i])@,
                            ) by {
                                if i < st0.len() {
                                    assert(stored@[i] == st0[i]);
                                } else {
                                    assert(store_name(
                                        program.nodes@[a as int].instructions@[b as int],
                                    ) == Some(name@));
                                }
                            }
                            assert forall|i: int, j: int|
                                0 <= i < j < stored@.len() implies stored@[i]@
                                != stored@[j]@ by {
                                if j == stored@.len() - 1 {
                                    assert(stored@[i] == st0[i]);
                                } else {
                                    assert(stored@[i] == st0[i] && stored@[j] == st0[j]);
                                }
                            }
                        }
                    }
                    proof {
                        assert(contains_str(stored@, name@));
                    }
                },
                Instruction::LoadVariable(name) => {
                    if !crate::util::contains_string(&loaded, name.as_str()) {
                        let ghost ld0 = loaded@;
                        loaded.push(name.clone());
                        proof {
                            assert(loaded@[loaded@.len() - 1]@ == name@);
                            assert forall|i: int| 0 <= i < loaded@.len() implies any_load(
                                *program,
                                (#[trigger] loaded@[i])@,
                            ) by {
                                if i < ld0.len() {
                                    assert(loaded@[i] == ld0[i]);
                                } else {
                                    assert(load_name(
                                        program.nodes@[a as int].instructions@[b as int],
                                    ) == Some(name@));
                                }
                            }
                        }
                    }
                    proof {
                        assert(contains_str(loaded@, name@));
                    }
                },
                _ => {},
            }
            proof {
                // earlier entries stay covered: the lists only grew
                assert forall|nm: Seq<char>| contains_str(loaded0, nm) implies contains_str(
                    loaded@,
                    nm,
                ) by {
                    let i = choose|i: int| 0 <= i < loaded0.len() && (#[trigger] loaded0[i])@
                        == nm;
                    assert(loaded@[i] == loaded0[i]);
                }
                assert forall|nm: Seq<char>| contains_str(stored0, nm) implies contains_str(
                    stored@,
                    nm,
                ) by {
                    let i = choose|i: int| 0 <= i < stored0.len() && (#[trigger] stored0[i])@
                        == nm;
                    assert(stored@[i] == stored0[i]);
                }
                assert(loads_covered(*program, a as int, b + 1, loaded@));
                assert(stores_covered(*program, a as int, b + 1, stored@));
            }
            b += 1;
        }
        proof {
            assert(loads_covered(*program, a + 1, 0, loaded@));
            assert(stores_covered(*program, a + 1, 0, stored@));
        }
        a += 1;
    }
    let mut out: Vec<Diagnosis> = Vec::new();
    let kn = stored.len();
    let mut k: usize = 0;
    while k < kn
        invariant
            kn == stored@.len(),
            k <= kn,
            forall|i: int| 0 <= i < stored@.len() ==> any_store(
                *program,
                (#[trigger] stored@[i])@,
            ),
            forall|i: int| 0 <= i < loaded@.len() ==> any_load(
                *program,
                (#[trigger] loaded@[i])@,
            ),
            forall|i: int, j: int| 0 <= i < j < stored@.len() ==> stored@[i]@ != stored@[j]@,
            loads_covered(*program, program.nodes@.len() as int, 0, loaded@),
            stores_covered(*program, program.nodes@.len() as int, 0, stored@),
            forall|j: int| 0 <= j < out@.len() ==> warns_unread(*program, #[trigger] out@[j]),
            forall|i: int|
                0 <= i < k && !contains_str(loaded@, (#[trigger] stored@[i])@) ==> exists|j: int|
                    0 <= j < out@.len() && out@[j].message@ == unread_warning_message(
                        stored@[i]@,
                    ),
            forall|j: int| 0 <= j < out@.len() ==> exists|i: int|
                0 <= i < k && (#[trigger] out@[j]).message@ == unread_warning_message(
                    stored@[i]@,
                ),
            forall|j1: int, j2: int| 0 <= j1 < j2 < out@.len() ==> out@[j1].message@
                != out@[j2].message@,
        decreases kn - k,
    {
        let ghost out0 = out@;
        if !crate::util::contains_string(&loaded, stored[k].as_str()) {
            let message = "Variable ".to_owned().concat(stored[k].as_str()).concat(
                " is assigned, but never read from",
            );
            let ghost name = stored@[k as int]@;
            proof {
                assert(message@ == unread_warning_message(name));
                if any_load(*program, name) {
                    let (x, y) = choose|x: int, y: int|
                        0 <= x < program.nodes@.len() && 0 <= y
                            < program.nodes@[x].instructions@.len() && load_name(
                            #[trigger] program.nodes@[x].instructions@[y],
                        ) == Some(name);
                    assert(contains_str(loaded@, name));
                }
            }
            out.push(Diagnosis { severity: DiagnosisSeverity::Warning, message });
            proof {
                assert(out@[out@.len() - 1].message@ == unread_warning_message(name));
                assert forall|j1: int, j2: int|
                    0 <= j1 < j2 < out@.len() implies out@[j1].message@ != out@[j2].message@ by {
                    if j2 == out@.len() - 1 {
                        assert(out@[j1] == out0[j1]);
                        let i = choose|i: int|
                            0 <= i < k && (#[trigger] out0[j1]).message@ == unread_warning_message(
                                stored@[i]@,
                            );
                        lemma_unread_message_injective(stored@[i]@, name);
                    } else {
                        assert(out@[j1] == out0[j1] && out@[j2] == out0[j2]);
                    }
                }
                assert forall|j: int| 0 <= j < out@.len() implies exists|i: int|
                    0 <= i < k + 1 && (#[trigger] out@[j]).message@ == unread_warning_message(
                        stored@[i]@,
                    ) by {
                    if j < out0.len() {
                        assert(out@[j] == out0[j]);
                        let i = choose|i: int|
                            0 <= i < k && (#[trigger] out0[j]).message@ == unread_warning_message(
                                stored@[i]@,
                            );
                    }
                }
                assert forall|i: int|
                    0 <= i < k + 1 && !contains_str(loaded@, (#[trigger] stored@[i])@) implies
                    exists|j: int|
                        0 <= j < out@.len() && out@[j].message@ == unread_warning_message(
                            stored@[i]@,
                        ) by {
                    if i < k {
                        if !contains_str(loaded@, stored@[i]@) {
                            let j = choose|j: int|
                                0 <= j < out0.len() && out0[j].message@ == unread_warning_message(
                                    stored@[i]@,
                                );
                            assert(out@[j] == out0[j]);
                        }
                    } else {
                        assert(out@[out@.len() - 1].message@ == unread_warning_message(
                            stored@[i]@,
                        ));
                    }
                }
            }
        }
        k += 1;
    }
    proof {
        // completeness: every stored-but-unread name got its warning
        assert forall|name: Seq<char>|
            any_store(*program, name) && !any_load(*program, name) implies exists|j: int|
            0 <= j < out@.len() && out@[j].message@ == unread_warning_message(name) by {
            let (x, y) = choose|x: int, y: int|
                0 <= x < program.nodes@.len() && 0 <= y < program.nodes@[x].instructions@.len()
                    && store_name(#[trigger] program.nodes@[x].instructions@[y]) == Some(name);
            assert(contains_str(stored@, name));
            let i = choose|i: int| 0 <= i < stored@.len() && (#[trigger] stored@[i])@ == name;
            if contains_str(loaded@, name) {
                let v = choose|v: int| 0 <= v < loaded@.len() && (#[trigger] loaded@[v])@ == name;
                assert(any_load(*program, loaded@[v]@));
            }
            assert(!contains_str(loaded@, stored@[i]@));
        }
    }
    out
}

} // verus!
