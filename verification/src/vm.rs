//! The virtual machine: a cooperative state machine that interprets one
//! node's bytecode at a time and yields batches of events to its host.
//!
//! One call to [`Dialogue::next`] executes instructions until the next
//! suspension point (a line, a command, an option set, or completion) and
//! returns every event produced on the way, in execution order.  An
//! internal-consistency failure (corrupt bytecode, a stack underflow, an
//! unresolved function) halts the dialogue: the machine records the fault and
//! stops rather than continue in an unsafe state.

use vstd::prelude::*;

verus! {

use crate::compiler::StringInfo;
use crate::library::{Library, invoke};
use crate::markup::{MarkupAttribute, parse_markup};
use crate::program::{Instruction, LineId, Program, find_node_spec};
use crate::storage::MemoryVariableStorage;
use crate::value::YarnValue;

/// The control state of a dialogue.
#[derive(Debug, Clone, Copy, PartialEq, Eq, Structural)]
pub enum ExecutionState {
    /// No node is selected; also the state after a fault or `stop`.
    Stopped,
    /// A node was selected and its first batch has not been produced yet.
    Running,
    /// An option set was delivered; a selection must be made before the next
    /// batch.
    WaitingForOptionSelection,
    /// Mid-node, between two batches.
    Suspended,
    /// The dialogue ran to completion.
    Complete,
}

/// A failure reported by the dialogue's control surface.
#[derive(Debug, Clone, Copy, PartialEq, Eq, Structural)]
pub enum DialogueError {
    /// No program is loaded.
    NoProgramLoaded,
    /// The named node is not part of the loaded program.
    NodeNotFound,
    /// The selection was out of range, or no option set is awaiting one.
    InvalidSelection,
    /// The operation is not valid in the current state.
    InvalidOperation,
}

/// A line ready for presentation: its stable identifier, its plain text with
/// markup interpreted, and the markup attributes.
#[derive(Debug)]
pub struct Line {
    pub id: LineId,
    pub text: String,
    pub attributes: Vec<MarkupAttribute>,
}

/// The identifying number for an option: session-local, assigned
/// sequentially from zero within each option set.
#[derive(Debug, Clone, Copy, PartialEq, Eq, Structural)]
pub struct OptionId(pub usize);

impl OptionId {
    /// Constructs an `OptionId` from a raw value.  The dialogue assigns ids
    /// itself; this is for tests and debugging.
    pub fn construct_for_debugging(value: usize) -> (r: Self)
        ensures
            r == OptionId(value),
    {
        OptionId(value)
    }
}

/// An option to be presented to the user.
#[derive(Debug)]
pub struct DialogueOption {
    /// The line that should be presented to the user for this option.
    pub line: Line,
    /// The identifying number for this option, handed back through
    /// [`Dialogue::set_selected_option`].
    pub id: OptionId,
    /// The destination if this option is selected; for shortcut options this
    /// names the generated continuation label rather than a node.
    pub destination_node: String,
    /// Whether the option's line condition held.  An option whose condition
    /// failed is still delivered, so a host can show it disabled.
    pub is_available: bool,
}

/// One event of the dialogue's protocol.
#[derive(Debug)]
pub enum DialogueEvent {
    NodeStart(String),
    Line(Line),
    Options(Vec<DialogueOption>),
    Command(String),
    NodeComplete(String),
    LineHints(Vec<LineId>),
    DialogueComplete,
}

/// Option ids are assigned sequentially from zero in emission order.
pub open spec fn opts_sequential(opts: Seq<DialogueOption>) -> bool {
    forall|i: int| 0 <= i < opts.len() ==> (#[trigger] opts[i]).id == OptionId(i as usize)
}

/// Every option set in the batch carries sequential ids.
pub open spec fn events_options_ok(evs: Seq<DialogueEvent>) -> bool {
    forall|i: int| 0 <= i < evs.len() ==> match #[trigger] evs[i] {
        DialogueEvent::Options(opts) => opts_sequential(opts@),
        _ => true,
    }
}

/// Whether the batch reports completion.
pub open spec fn has_complete(evs: Seq<DialogueEvent>) -> bool {
    exists|i: int| 0 <= i < evs.len() && (#[trigger] evs[i]) is DialogueComplete
}

/// Whether the batch delivers an option set.
pub open spec fn has_options(evs: Seq<DialogueEvent>) -> bool {
    exists|i: int| 0 <= i < evs.len() && (#[trigger] evs[i]) is Options
}

proof fn lemma_events_push(s: Seq<DialogueEvent>, e: DialogueEvent)
    ensures
        has_complete(s.push(e)) == (has_complete(s) || e is DialogueComplete),
        has_options(s.push(e)) == (has_options(s) || e is Options),
        events_options_ok(s) && (e matches DialogueEvent::Options(opts)
            ==> opts_sequential(opts@)) ==> events_options_ok(s.push(e)),
{
    let t = s.push(e);
    assert(t[s.len() as int] == e);
    assert(forall|i: int| 0 <= i < s.len() ==> t[i] == s[i]);
    if has_complete(s) {
        let i = choose|i: int| 0 <= i < s.len() && (#[trigger] s[i]) is DialogueComplete;
        assert(t[i] is DialogueComplete);
    }
    if has_complete(t) {
        let i = choose|i: int| 0 <= i < t.len() && (#[trigger] t[i]) is DialogueComplete;
        if i < s.len() {
            assert(s[i] is DialogueComplete);
        }
    }
    if has_options(s) {
        let i = choose|i: int| 0 <= i < s.len() && (#[trigger] s[i]) is Options;
        assert(t[i] is Options);
    }
    if has_options(t) {
        let i = choose|i: int| 0 <= i < t.len() && (#[trigger] t[i]) is Options;
        if i < s.len() {
            assert(s[i] is Options);
        }
    }
}

/// A dialogue session: one loaded program, its variable storage and function
/// library, and the execution state of the node being run.
#[derive(Debug)]
pub struct Dialogue {
    pub program: Option<Program>,
    pub string_table: Vec<StringInfo>,
    pub library: Library,
    pub variable_storage: MemoryVariableStorage,
    pub state: ExecutionState,
    /// Index of the node being run.
    pub current_node: Option<usize>,
    /// Name of the node being run.
    pub current_node_name: Option<String>,
    /// Index of the next instruction.
    pub pc: usize,
    /// The evaluation stack.
    pub stack: Vec<YarnValue>,
    /// Options accumulated towards the next `ShowOptions`.
    pub current_options: Vec<DialogueOption>,
    /// Destinations of the option set awaiting a selection.
    pub option_destinations: Vec<String>,
    /// The label selected by the host, taken on the next batch.
    pub pending_jump: Option<String>,
    /// Whether a `LineHints` event is sent before a node's first instruction.
    pub should_send_line_hints: bool,
    /// Whether the hints for the current node are still owed.
    pub hints_pending: bool,
    /// The internal-consistency failure that halted the dialogue, if any.
    pub fault: Option<String>,
}

/// The line identifiers a node's instructions reference, in instruction
/// order: those of its lines and of its options.
pub open spec fn hint_ids(insts: Seq<Instruction>) -> Seq<Seq<char>>
    decreases insts.len(),
{
    if insts.len() == 0 {
        Seq::empty()
    } else {
        let rest = hint_ids(insts.drop_last());
        match insts.last() {
            Instruction::RunLine(id) => rest.push(id.0@),
            Instruction::AddOption { line_id, .. } => rest.push(line_id.0@),
            _ => rest,
        }
    }
}

/// The machine suspended just after a `RunCommand` whose text the event
/// carries.
pub open spec fn suspended_on_command(d: Dialogue, ev: DialogueEvent) -> bool {
    &&& dialogue_runnable(d)
    &&& d.pc >= 1
    &&& d.program->Some_0.nodes@[d.current_node->Some_0 as int].instructions@[d.pc - 1]
        matches Instruction::RunCommand(t) && ev matches DialogueEvent::Command(c) && t@ == c@
}

/// The machine suspended just after a `RunLine` whose id the event carries;
/// the line's text is the registered text of that id, run through the markup
/// parser (marker-free text passes through verbatim).
pub open spec fn suspended_on_line(d: Dialogue, ev: DialogueEvent) -> bool {
    &&& dialogue_runnable(d)
    &&& d.pc >= 1
    &&& ev matches DialogueEvent::Line(line) && {
        &&& d.program->Some_0.nodes@[d.current_node->Some_0 as int].instructions@[d.pc - 1]
            matches Instruction::RunLine(rid) && rid.0@ == line.id.0@
        &&& crate::compiler::string_table_spec(d.string_table@, line.id.0@) matches Some(raw) && (
        !raw.contains('[') ==> line.text@ == raw)
    }
}

/// Whether a call to `next` will run instructions.
pub open spec fn dialogue_runnable(d: Dialogue) -> bool {
    &&& d.program is Some
    &&& (d.state is Running || d.state is Suspended)
    &&& d.current_node is Some
    &&& d.current_node_name is Some
    &&& d.current_node->Some_0 < d.program->Some_0.nodes@.len()
}

impl Dialogue {
    /// A dialogue with no program loaded.
    pub fn new() -> (r: Self)
        ensures
            r.program is None,
            r.state == ExecutionState::Stopped,
            r.current_node is None,
            r.current_node_name is None,
            r.fault is None,
    {
        Dialogue {
            program: None,
            string_table: Vec::new(),
            library: Library::new(),
            variable_storage: MemoryVariableStorage::new(),
            state: ExecutionState::Stopped,
            current_node: None,
            current_node_name: None,
            pc: 0,
            stack: Vec::new(),
            current_options: Vec::new(),
            option_destinations: Vec::new(),
            pending_jump: None,
            should_send_line_hints: false,
            hints_pending: false,
            fault: None,
        }
    }

    /// Enables line hints: each selected node announces its line ids before
    /// its first instruction runs.
    pub fn with_should_send_line_hints(self) -> (r: Self)
        ensures
            r.should_send_line_hints,
            r.program == self.program,
            r.state == self.state,
    {
        Dialogue { should_send_line_hints: true, ..self }
    }

    /// Replaces the loaded program.  Only valid while no dialogue is
    /// running; the machine returns to `Stopped` and the program's registered
    /// initial values seed the variable storage: every registered variable
    /// then reads as its registered value, and every other name reads as
    /// before.
    pub fn replace_program(&mut self, program: Program)
        requires
            !(old(self).state is Running),
            !(old(self).state is Suspended),
            !(old(self).state is WaitingForOptionSelection),
        ensures
            final(self).program == Some(program),
            final(self).state == ExecutionState::Stopped,
            final(self).current_node is None,
            final(self).current_node_name is None,
            final(self).current_options@.len() == 0,
            final(self).string_table == old(self).string_table,
            forall|k: Seq<char>|
                #![trigger crate::program::initial_value_spec(program.initial_values@, k)]
                match crate::program::initial_value_spec(program.initial_values@, k) {
                    Some(op) => crate::storage::storage_get_spec(
                        final(self).variable_storage.entries@,
                        k,
                    ) == Some(crate::value::value_of_operand_spec(op)),
                    None => crate::storage::storage_get_spec(
                        final(self).variable_storage.entries@,
                        k,
                    ) == crate::storage::storage_get_spec(
                        old(self).variable_storage.entries@,
                        k,
                    ),
                },
    {
        let n = program.initial_values.len();
        proof {
            assert(program.initial_values@.subrange(n as int, n as int)
                =~= Seq::<(String, crate::value::Operand)>::empty());
        }
        let mut i: usize = n;
        while i > 0
            invariant
                n == program.initial_values@.len(),
                i <= n,
                self.string_table == old(self).string_table,
                forall|k: Seq<char>|
                    #![trigger crate::program::initial_value_spec(
                        program.initial_values@.subrange(i as int, n as int),
                        k,
                    )]
                    match crate::program::initial_value_spec(
                        program.initial_values@.subrange(i as int, n as int),
                        k,
                    ) {
                        Some(op) => crate::storage::storage_get_spec(
                            self.variable_storage.entries@,
                            k,
                        ) == Some(crate::value::value_of_operand_spec(op)),
                        None => crate::storage::storage_get_spec(
                            self.variable_storage.entries@,
                            k,
                        ) == crate::storage::storage_get_spec(
                            old(self).variable_storage.entries@,
                            k,
                        ),
                    },
            decreases i,
        {
            i = i - 1;
            let ghost before = self.variable_storage.entries@;
            let name = program.initial_values[i].0.clone();
            let value = crate::value::value_of_operand(&program.initial_values[i].1);
            self.variable_storage.set(name.as_str(), value);
            proof {
                let suffix1 = program.initial_values@.subrange(i as int, n as int);
                let suffix0 = program.initial_values@.subrange(i + 1, n as int);
                assert(suffix1[0] == program.initial_values@[i as int]);
                assert(suffix1.subrange(1, suffix1.len() as int) =~= suffix0);
                assert forall|k: Seq<char>|
                    match #[trigger] crate::program::initial_value_spec(suffix1, k) {
                        Some(op) => crate::storage::storage_get_spec(
                            self.variable_storage.entries@,
                            k,
                        ) == Some(crate::value::value_of_operand_spec(op)),
                        None => crate::storage::storage_get_spec(
                            self.variable_storage.entries@,
                            k,
                        ) == crate::storage::storage_get_spec(
                            old(self).variable_storage.entries@,
                            k,
                        ),
                    } by {
                    if k == name@ {
                        assert(crate::program::initial_value_spec(suffix1, k) == Some(
                            program.initial_values@[i as int].1,
                        ));
                    } else {
                        assert(crate::program::initial_value_spec(suffix1, k)
                            == crate::program::initial_value_spec(suffix0, k));
                        assert(crate::storage::storage_get_spec(
                            self.variable_storage.entries@,
                            k,
                        ) == crate::storage::storage_get_spec(before, k));
                    }
                }
            }
        }
        proof {
            assert(program.initial_values@.subrange(0, n as int) =~= program.initial_values@);
        }
        self.program = Some(program);
        self.state = ExecutionState::Stopped;
        self.current_node = None;
        self.current_node_name = None;
        self.pc = 0;
        self.stack = Vec::new();
        self.current_options = Vec::new();
        self.option_destinations = Vec::new();
        self.pending_jump = None;
        self.hints_pending = false;
        self.fault = None;
    }

    /// Replaces the string table used to materialize line text.
    pub fn set_string_table(&mut self, table: Vec<StringInfo>)
        ensures
            final(self).string_table == table,
            final(self).program == old(self).program,
            final(self).state == old(self).state,
    {
        self.string_table = table;
    }

    /// Whether the loaded program holds a node of this name.
    pub fn node_exists(&self, name: &str) -> (r: bool)
        ensures
            r == match self.program {
                Some(p) => find_node_spec(p.nodes@, name@) is Some,
                None => false,
            },
    {
        match &self.program {
            Some(p) => p.node_index(name).is_some(),
            None => false,
        }
    }

    /// The name of the node being run, if any.
    pub fn current_node(&self) -> (r: Option<String>)
        ensures
            match (r, self.current_node_name) {
                (Some(a), Some(b)) => a@ == b@,
                (None, None) => true,
                _ => false,
            },
    {
        match &self.current_node_name {
            Some(n) => Some(n.clone()),
            None => None,
        }
    }

    /// Selects the node to run.  Fails with `NoProgramLoaded` when no
    /// program is loaded and with `NodeNotFound` when the program holds no
    /// node of this name; on success the machine is `Running` at the node's
    /// first instruction with a clean stack.
    pub fn set_node(&mut self, name: &str) -> (r: Result<(), DialogueError>)
        ensures
            match r {
                Ok(()) => {
                    &&& old(self).program matches Some(p) && find_node_spec(p.nodes@, name@)
                        matches Some(i) && final(self).current_node == Some(i as usize)
                    &&& final(self).state == ExecutionState::Running
                    &&& final(self).current_node_name matches Some(n) && n@ == name@
                    &&& final(self).pc == 0
                    &&& final(self).stack@.len() == 0
                    &&& final(self).program == old(self).program
                    &&& final(self).current_options@.len() == 0
                    &&& dialogue_runnable(*final(self))
                },
                Err(DialogueError::NoProgramLoaded) => old(self).program is None && *final(self)
                    == *old(self),
                Err(DialogueError::NodeNotFound) => old(self).program matches Some(p)
                    && find_node_spec(p.nodes@, name@) is None && *final(self) == *old(self),
                Err(_) => false,
            },
    {
        let idx = match &self.program {
            Some(p) => match p.node_index(name) {
                Some(i) => i,
                None => {
                    return Err(DialogueError::NodeNotFound);
                },
            },
            None => {
                return Err(DialogueError::NoProgramLoaded);
            },
        };
        self.current_node = Some(idx);
        self.current_node_name = Some(name.to_owned());
        self.pc = 0;
        self.stack = Vec::new();
        self.current_options = Vec::new();
        self.option_destinations = Vec::new();
        self.pending_jump = None;
        self.state = ExecutionState::Running;
        self.hints_pending = self.should_send_line_hints;
        self.fault = None;
        Ok(())
    }

    /// Answers the option set of the last batch.  Selecting while no option
    /// set awaits an answer is an invalid operation; selecting an id the set
    /// did not assign is an invalid selection.  On success the machine
    /// continues at the selected destination on the next batch.
    pub fn set_selected_option(&mut self, option: OptionId) -> (r: Result<(), DialogueError>)
        ensures
            r is Ok <==> old(self).state is WaitingForOptionSelection && option.0 < old(
                self,
            ).option_destinations@.len(),
            r is Ok ==> {
                &&& final(self).state == ExecutionState::Suspended
                &&& final(self).pending_jump matches Some(l) && l@ == old(
                    self,
                ).option_destinations@[option.0 as int]@
                &&& final(self).program == old(self).program
                &&& final(self).current_node == old(self).current_node
                &&& final(self).current_node_name == old(self).current_node_name
                &&& final(self).current_options == old(self).current_options
            },
            r matches Err(e) ==> *final(self) == *old(self) && e == (
            if old(self).state is WaitingForOptionSelection {
                DialogueError::InvalidSelection
            } else {
                DialogueError::InvalidOperation
            }),
    {
        if !matches!(self.state, ExecutionState::WaitingForOptionSelection) {
            return Err(DialogueError::InvalidOperation);
        }
        if option.0 >= self.option_destinations.len() {
            return Err(DialogueError::InvalidSelection);
        }
        let dest = self.option_destinations[option.0].clone();
        self.pending_jump = Some(dest);
        self.option_destinations = Vec::new();
        self.state = ExecutionState::Suspended;
        Ok(())
    }

    /// Stops the dialogue: the machine returns to `Stopped` with no current
    /// node; the loaded program is kept.
    pub fn stop(&mut self)
        ensures
            final(self).state == ExecutionState::Stopped,
            final(self).current_node is None,
            final(self).current_node_name is None,
            final(self).current_options@.len() == 0,
            final(self).program == old(self).program,
    {
        self.state = ExecutionState::Stopped;
        self.current_node = None;
        self.current_node_name = None;
        self.pc = 0;
        self.stack = Vec::new();
        self.current_options = Vec::new();
        self.option_destinations = Vec::new();
        self.pending_jump = None;
        self.hints_pending = false;
    }

    /// Unloads the program.  Only valid while no dialogue is running; the
    /// machine returns to `Stopped`.
    pub fn unload_all(&mut self)
        requires
            !(old(self).state is Running),
            !(old(self).state is Suspended),
            !(old(self).state is WaitingForOptionSelection),
        ensures
            final(self).program is None,
            final(self).state == ExecutionState::Stopped,
            final(self).current_node is None,
            final(self).current_node_name is None,
            final(self).current_options@.len() == 0,
    {
        self.program = None;
        self.state = ExecutionState::Stopped;
        self.current_node = None;
        self.current_node_name = None;
        self.pc = 0;
        self.stack = Vec::new();
        self.current_options = Vec::new();
        self.option_destinations = Vec::new();
        self.pending_jump = None;
        self.hints_pending = false;
    }

    /// Whether the machine awaits an option selection.
    pub fn is_waiting_for_options(&self) -> (r: bool)
        ensures
            r == (self.state is WaitingForOptionSelection),
    {
        matches!(self.state, ExecutionState::WaitingForOptionSelection)
    }

    /// The fault that halted the dialogue, if any.
    pub fn last_fault(&self) -> (r: Option<&String>)
        ensures
            r is Some <==> self.fault is Some,
    {
        self.fault.as_ref()
    }

    /// Runs the line text through the markup parser and returns the plain
    /// text.  Text without markers passes through unchanged.
    pub fn parse_markup(&self, text: &str) -> (r: String)
        ensures
            !text@.contains('[') ==> r@ == text@,
    {
        parse_markup(text).text
    }

    /// The text registered for a line id, if any.
    fn lookup_string(&self, id: &LineId) -> (r: Option<String>)
        ensures
            r is Some <==> crate::compiler::string_table_spec(self.string_table@, id.0@) is Some,
            r matches Some(t) ==> crate::compiler::string_table_spec(self.string_table@, id.0@)
                == Some(t@),
    {
        let n = self.string_table.len();
        proof {
            assert(self.string_table@.subrange(0, n as int) =~= self.string_table@);
        }
        let mut i: usize = 0;
        while i < n
            invariant
                n == self.string_table@.len(),
                i <= n,
                crate::compiler::string_table_spec(self.string_table@, id.0@)
                    == crate::compiler::string_table_spec(
                    self.string_table@.subrange(i as int, n as int),
                    id.0@,
                ),
            decreases n - i,
        {
            let ghost tail = self.string_table@.subrange(i as int, n as int);
            proof {
                assert(tail[0] == self.string_table@[i as int]);
                assert(tail.subrange(1, tail.len() as int) =~= self.string_table@.subrange(
                    i + 1,
                    n as int,
                ));
            }
            if crate::util::str_eq(self.string_table[i].id.0.as_str(), id.0.as_str()) {
                return Some(self.string_table[i].text.clone());
            }
            i += 1;
        }
        None
    }

    /// Materializes a line: looks its text up, interprets markup, and
    /// attaches the attributes.
    fn materialize_line(&self, id: LineId) -> (r: Option<Line>)
        ensures
            r is Some <==> crate::compiler::string_table_spec(self.string_table@, id.0@) is Some,
            r matches Some(line) ==> line.id == id && (
            crate::compiler::string_table_spec(self.string_table@, id.0@) matches Some(raw) && (
            !raw.contains('[') ==> line.text@ == raw)),
    {
        let text = match self.lookup_string(&id) {
            Some(t) => t,
            None => {
                return None;
            },
        };
        let parsed = parse_markup(text.as_str());
        Some(Line { id, text: parsed.text, attributes: parsed.attributes })
    }

    /// Produces the next batch of events: executes instructions until a
    /// line, a command, an option set or completion suspends the batch.
    ///
    /// Yields nothing when there is nothing to run.  Option ids within each
    /// delivered option set are distinct and count up from zero in emission
    /// order.  A batch reports `DialogueComplete` exactly when the dialogue
    /// finished, and the current node is then cleared, so a later call
    /// yields nothing.
    #[verifier::rlimit(100)]
    pub fn next(&mut self) -> (r: Option<Vec<DialogueEvent>>)
        requires
            !(old(self).state is WaitingForOptionSelection),
            opts_sequential(old(self).current_options@),
        ensures
            opts_sequential(final(self).current_options@),
            r is None <==> !dialogue_runnable(*old(self)),
            r is None ==> *final(self) == *old(self),
            r matches Some(evs) ==> {
                &&& events_options_ok(evs@)
                &&& (has_complete(evs@) <==> final(self).state is Complete)
                &&& (has_options(evs@) <==> final(self).state is WaitingForOptionSelection)
                &&& (final(self).state is Complete ==> final(self).current_node_name is None
                    && final(self).current_node is None)
                &&& !(final(self).state is Running) && !(final(self).state is Suspended)
                    ==> !dialogue_runnable(*final(self))
                // a batch is empty only when a fault halted the dialogue
                &&& evs@.len() > 0 || final(self).fault is Some
                // a fresh node's batch opens with its start event
                &&& old(self).state is Running ==> evs@.len() > 0 && evs@[0] is NodeStart
                    && evs@[0]->NodeStart_0@ == old(self).current_node_name->Some_0@
                // completion closes the batch: the node's completion, then
                // the dialogue's
                &&& has_complete(evs@) ==> evs@.len() >= 2 && evs@[evs@.len() - 1]
                    is DialogueComplete && evs@[evs@.len() - 2] is NodeComplete
                // an option set closes the batch and is never empty
                &&& has_options(evs@) ==> evs@.len() > 0 && evs@[evs@.len() - 1] is Options
                    && evs@[evs@.len() - 1]->Options_0@.len() > 0
                // a batch that suspends mid-node ends with the line or
                // command that suspended it, and that event reports exactly
                // what the instruction before the new instruction pointer
                // names: the command's text, or the line's id with its text
                // drawn from the string table (markup-free text verbatim)
                &&& final(self).state is Suspended ==> evs@.len() > 0 && (evs@[evs@.len() - 1]
                    is Line || evs@[evs@.len() - 1] is Command)
                &&& final(self).state is Suspended && evs@.len() > 0 && evs@[evs@.len() - 1]
                    is Command ==> suspended_on_command(*final(self), evs@[evs@.len() - 1])
                &&& final(self).state is Suspended && evs@.len() > 0 && evs@[evs@.len() - 1]
                    is Line ==> suspended_on_line(*final(self), evs@[evs@.len() - 1])
            },
    {
        let runnable = match &self.program {
            Some(_) => {
                matches!(self.state, ExecutionState::Running | ExecutionState::Suspended)
                    && self.current_node.is_some() && self.current_node_name.is_some()
            },
            None => false,
        };
        let runnable = runnable && match (&self.program, self.current_node) {
            (Some(p), Some(ni)) => ni < p.nodes.len(),
            _ => false,
        };
        if !runnable {
            return None;
        }
        let mut events: Vec<DialogueEvent> = Vec::new();
        if matches!(self.state, ExecutionState::Running) {
            let name = match &self.current_node_name {
                Some(n) => n.clone(),
                None => String::new(),
            };
            let ghost evs0 = events@;
            events.push(DialogueEvent::NodeStart(name));
            proof {
                lemma_events_push(evs0, events@.last());
                assert(events@[0] is NodeStart);
                assert(events@[0]->NodeStart_0@ == old(self).current_node_name->Some_0@);
            }
        }
        if self.hints_pending {
            let hints = self.collect_line_hints();
            let ghost evs0 = events@;
            events.push(DialogueEvent::LineHints(hints));
            proof {
                lemma_events_push(evs0, events@.last());
            }
            self.hints_pending = false;
        }
        self.state = ExecutionState::Suspended;
        // one batch executes a bounded number of instructions; a program
        // that exceeds the budget is treated as a runaway loop and halted
        let mut fuel: usize = 1000000;
        let mut running = true;
        while running && fuel > 0
            invariant
                self.program is Some,
                running ==> self.current_node is Some && self.current_node->Some_0
                    < self.program->Some_0.nodes@.len(),
                running ==> self.current_node_name is Some,
                running ==> self.state is Suspended,
                running ==> !has_complete(events@) && !has_options(events@),
                events_options_ok(events@),
                opts_sequential(self.current_options@),
                !running ==> (has_complete(events@) <==> self.state is Complete),
                !running ==> (has_options(events@) <==> self.state is WaitingForOptionSelection),
                !running ==> (self.state is Complete ==> self.current_node_name is None
                    && self.current_node is None),
                !running ==> !(self.state is Running),
                !running ==> (self.state is Suspended ==> self.current_node is Some
                    && self.current_node->Some_0 < self.program->Some_0.nodes@.len()
                    && self.current_node_name is Some),
                !running ==> events@.len() > 0 || self.fault is Some,
                old(self).state is Running ==> events@.len() > 0 && events@[0] is NodeStart
                    && events@[0]->NodeStart_0@ == old(self).current_node_name->Some_0@,
                !running && self.state is Complete ==> events@.len() >= 2 && events@[events@.len()
                    - 1] is DialogueComplete && events@[events@.len() - 2] is NodeComplete,
                !running && self.state is WaitingForOptionSelection ==> events@.len() > 0
                    && events@[events@.len() - 1] is Options && events@[events@.len()
                    - 1]->Options_0@.len() > 0,
                !running && self.state is Suspended ==> events@.len() > 0 && (
                events@[events@.len() - 1] is Line || events@[events@.len() - 1] is Command),
                self.string_table == old(self).string_table,
                !running && self.state is Suspended && events@[events@.len() - 1] is Command
                    ==> suspended_on_command(*self, events@[events@.len() - 1]),
                !running && self.state is Suspended && events@[events@.len() - 1] is Line
                    ==> suspended_on_line(*self, events@[events@.len() - 1]),
            decreases fuel,
        {
            fuel = fuel - 1;
            // a selected option's destination takes effect first
            let jump = match &self.pending_jump {
                Some(l) => Some(l.clone()),
                None => None,
            };
            if let Some(label) = jump {
                self.pending_jump = None;
                let ni = self.current_node.unwrap();
                let target = match &self.program {
                    Some(p) => p.nodes[ni].find_label(label.as_str()),
                    None => None,
                };
                match target {
                    Some(ix) => {
                        self.pc = ix;
                    },
                    None => {
                        self.halt_with_fault("unknown jump label");
                        running = false;
                    },
                }
                continue;
            }
            let ni = self.current_node.unwrap();
            let inst = {
                let p = match &self.program {
                    Some(p) => p,
                    None => {
                        proof {
                            assert(false);
                        }
                        return None;
                    },
                };
                if self.pc >= p.nodes[ni].instructions.len() {
                    None
                } else {
                    Some(p.nodes[ni].instructions[self.pc].clone())
                }
            };
            let inst = match inst {
                Some(inst) => inst,
                None => {
                    // the node ran out of instructions: the dialogue is over
                    self.complete_dialogue(&mut events);
                    running = false;
                    continue;
                },
            };
            match inst {
                Instruction::PushString(s) => {
                    self.stack.push(YarnValue::Str(s));
                    self.pc = self.pc + 1;
                },
                Instruction::PushNumber(n) => {
                    self.stack.push(YarnValue::Number(n));
                    self.pc = self.pc + 1;
                },
                Instruction::PushBool(b) => {
                    self.stack.push(YarnValue::Bool(b));
                    self.pc = self.pc + 1;
                },
                Instruction::Pop => {
                    match self.stack.pop() {
                        Some(_) => {
                            self.pc = self.pc + 1;
                        },
                        None => {
                            self.halt_with_fault("stack underflow");
                            running = false;
                        },
                    }
                },
                Instruction::LoadVariable(name) => {
                    match self.variable_storage.get(name.as_str()) {
                        Some(v) => {
                            self.stack.push(v);
                            self.pc = self.pc + 1;
                        },
                        None => {
                            self.halt_with_fault("undefined variable");
                            running = false;
                        },
                    }
                },
                Instruction::StoreVariable(name) => {
                    match self.stack.pop() {
                        Some(v) => {
                            self.variable_storage.set(name.as_str(), v);
                            self.pc = self.pc + 1;
                        },
                        None => {
                            self.halt_with_fault("stack underflow");
                            running = false;
                        },
                    }
                },
                Instruction::JumpTo(label) => {
                    let target = match &self.program {
                        Some(p) => p.nodes[ni].find_label(label.as_str()),
                        None => None,
                    };
                    match target {
                        Some(ix) => {
                            self.pc = ix;
                        },
                        None => {
                            self.halt_with_fault("unknown jump label");
                            running = false;
                        },
                    }
                },
                Instruction::JumpIfFalse(label) => {
                    match self.stack.pop() {
                        Some(YarnValue::Bool(b)) => {
                            if b {
                                self.pc = self.pc + 1;
                            } else {
                                let target = match &self.program {
                                    Some(p) => p.nodes[ni].find_label(label.as_str()),
                                    None => None,
                                };
                                match target {
                                    Some(ix) => {
                                        self.pc = ix;
                                    },
                                    None => {
                                        self.halt_with_fault("unknown jump label");
                                        running = false;
                                    },
                                }
                            }
                        },
                        Some(_) => {
                            self.halt_with_fault("condition is not a boolean");
                            running = false;
                        },
                        None => {
                            self.halt_with_fault("stack underflow");
                            running = false;
                        },
                    }
                },
                Instruction::CallFunc(name) => {
                    match self.library.resolve(name.as_str()) {
                        Some(c) => {
                            let arity = c.arity();
                            if self.stack.len() < arity {
                                self.halt_with_fault("stack underflow");
                                running = false;
                            } else {
                                let mut args: Vec<YarnValue> = Vec::new();
                                let base = self.stack.len() - arity;
                                let ghost slf = *self;
                                let mut idx = base;
                                while idx < self.stack.len()
                                    invariant
                                        *self == slf,
                                        base <= idx <= self.stack@.len(),
                                    decreases self.stack@.len() - idx,
                                {
                                    args.push(self.stack[idx].clone());
                                    idx += 1;
                                }
                                let mut j: usize = 0;
                                while j < arity
                                    invariant
                                        j <= arity,
                                        self.stack@.len() + j >= arity,
                                        self.program == slf.program,
                                        self.current_node == slf.current_node,
                                        self.current_node_name == slf.current_node_name,
                                        self.state == slf.state,
                                        self.current_options == slf.current_options,
                                        self.string_table == slf.string_table,
                                        self.pc == slf.pc,
                                        self.pc < self.program->Some_0.nodes@[
                                            self.current_node->Some_0 as int
                                        ].instructions@.len(),
                                    decreases arity - j,
                                {
                                    proof {
                                        assert(self.stack@.len() > 0);
                                    }
                                    let _ = self.stack.pop();
                                    j += 1;
                                }
                                match invoke(c, &args) {
                                    Some(v) => {
                                        self.stack.push(v);
                                        self.pc = self.pc + 1;
                                    },
                                    None => {
                                        self.halt_with_fault("function arguments do not match");
                                        running = false;
                                    },
                                }
                            }
                        },
                        None => {
                            self.halt_with_fault("unresolved function");
                            running = false;
                        },
                    }
                },
                Instruction::RunLine(id) => {
                    match self.materialize_line(id) {
                        Some(line) => {
                            self.pc = self.pc + 1;
                            let ghost evs0 = events@;
                            events.push(DialogueEvent::Line(line));
                            proof {
                                lemma_events_push(evs0, events@.last());
                            }
                            running = false;
                        },
                        None => {
                            self.halt_with_fault("no text for line id");
                            running = false;
                        },
                    }
                },
                Instruction::AddOption { line_id, destination, has_condition } => {
                    let available = if has_condition {
                        match self.stack.pop() {
                            Some(YarnValue::Bool(b)) => Some(b),
                            Some(_) => None,
                            None => None,
                        }
                    } else {
                        Some(true)
                    };
                    match available {
                        Some(avail) => {
                            match self.materialize_line(line_id) {
                                Some(line) => {
                                    let id = OptionId(self.current_options.len());
                                    let ghost co0 = self.current_options@;
                                    self.current_options.push(
                                        DialogueOption {
                                            line,
                                            id,
                                            destination_node: destination,
                                            is_available: avail,
                                        },
                                    );
                                    proof {
                                        let co = self.current_options@;
                                        assert forall|a: int| 0 <= a < co.len() implies (
                                        #[trigger] co[a]).id == OptionId(a as usize) by {
                                            if a < co0.len() {
                                                assert(co[a] == co0[a]);
                                            }
                                        }
                                    }
                                    self.pc = self.pc + 1;
                                },
                                None => {
                                    self.halt_with_fault("no text for option line id");
                                    running = false;
                                },
                            }
                        },
                        None => {
                            self.halt_with_fault("option condition is not a boolean");
                            running = false;
                        },
                    }
                },
                Instruction::ShowOptions => {
                    if self.current_options.len() == 0 {
                        self.halt_with_fault("no options to show");
                        running = false;
                    } else {
                        let mut opts: Vec<DialogueOption> = Vec::new();
                        core::mem::swap(&mut opts, &mut self.current_options);
                        let on = opts.len();
                        let mut dests: Vec<String> = Vec::new();
                        let mut j: usize = 0;
                        while j < on
                            invariant
                                on == opts@.len(),
                                j <= on,
                            decreases on - j,
                        {
                            dests.push(opts[j].destination_node.clone());
                            j += 1;
                        }
                        self.option_destinations = dests;
                        self.pc = self.pc + 1;
                        self.state = ExecutionState::WaitingForOptionSelection;
                        let ghost evs0 = events@;
                        events.push(DialogueEvent::Options(opts));
                        proof {
                            lemma_events_push(evs0, events@.last());
                        }
                        running = false;
                    }
                },
                Instruction::RunCommand(text) => {
                    self.pc = self.pc + 1;
                    let ghost evs0 = events@;
                    events.push(DialogueEvent::Command(text));
                    proof {
                        lemma_events_push(evs0, events@.last());
                    }
                    running = false;
                },
                Instruction::RunNode(name) => {
                    let target = match &self.program {
                        Some(p) => p.node_index(name.as_str()),
                        None => None,
                    };
                    match target {
                        Some(ix) => {
                            let old_name = match &self.current_node_name {
                                Some(n) => n.clone(),
                                None => String::new(),
                            };
                            let ghost evs0 = events@;
                            events.push(DialogueEvent::NodeComplete(old_name));
                            proof {
                                lemma_events_push(evs0, events@.last());
                            }
                            self.current_node = Some(ix);
                            self.current_node_name = Some(name.clone());
                            self.pc = 0;
                            self.hints_pending = self.should_send_line_hints;
                            let ghost evs1 = events@;
                            events.push(DialogueEvent::NodeStart(name));
                            proof {
                                lemma_events_push(evs1, events@.last());
                            }
                        },
                        None => {
                            self.halt_with_fault("jump to unknown node");
                            running = false;
                        },
                    }
                },
                Instruction::Stop => {
                    self.complete_dialogue(&mut events);
                    running = false;
                },
            }
        }
        if running {
            self.halt_with_fault("instruction budget exhausted");
        }
        Some(events)
    }

    /// Gathers every line id the current node's instructions reference, in
    /// instruction order, for a `LineHints` event.
    fn collect_line_hints(&self) -> (r: Vec<LineId>)
        requires
            self.current_node matches Some(ni) && self.program matches Some(p) && ni
                < p.nodes@.len(),
        ensures
            ({
                let ids = hint_ids(
                    self.program->Some_0.nodes@[self.current_node->Some_0 as int].instructions@,
                );
                r@.len() == ids.len() && forall|i: int| 0 <= i < ids.len() ==> (
                #[trigger] r@[i]).0@ == ids[i]
            }),
    {
        let ni = self.current_node.unwrap();
        let p = match &self.program {
            Some(p) => p,
            None => {
                proof {
                    assert(false);
                }
                return Vec::new();
            },
        };
        let node = &p.nodes[ni];
        let n = node.instructions.len();
        let mut out: Vec<LineId> = Vec::new();
        proof {
            assert(node.instructions@.subrange(0, 0) =~= Seq::<Instruction>::empty());
        }
        let mut i: usize = 0;
        while i < n
            invariant
                n == node.instructions@.len(),
                *node == self.program->Some_0.nodes@[self.current_node->Some_0 as int],
                i <= n,
                out@.len() == hint_ids(node.instructions@.subrange(0, i as int)).len(),
                forall|j: int| 0 <= j < out@.len() ==> (#[trigger] out@[j]).0@ == hint_ids(
                    node.instructions@.subrange(0, i as int),
                )[j],
            decreases n - i,
        {
            let ghost prefix = node.instructions@.subrange(0, i as int);
            let ghost prefix1 = node.instructions@.subrange(0, i + 1);
            proof {
                assert(prefix1.drop_last() =~= prefix);
                assert(prefix1.last() == node.instructions@[i as int]);
            }
            match &node.instructions[i] {
                Instruction::RunLine(id) => {
                    out.push(id.clone());
                },
                Instruction::AddOption { line_id, .. } => {
                    out.push(line_id.clone());
                },
                _ => {},
            }
            i += 1;
        }
        proof {
            assert(node.instructions@.subrange(0, n as int) =~= node.instructions@);
        }
        out
    }

    /// Records an internal-consistency failure and halts the dialogue.
    fn halt_with_fault(&mut self, message: &str)
        ensures
            final(self).state == ExecutionState::Stopped,
            final(self).current_node is None,
            final(self).current_node_name is None,
            final(self).current_options@.len() == 0,
            final(self).fault is Some,
            final(self).program == old(self).program,
            final(self).string_table == old(self).string_table,
    {
        self.fault = Some(message.to_owned());
        self.state = ExecutionState::Stopped;
        self.current_node = None;
        self.current_node_name = None;
        self.pending_jump = None;
        self.current_options = Vec::new();
        self.option_destinations = Vec::new();
    }

    /// Finishes the dialogue: reports the node's completion and the end of
    /// the dialogue, and clears the current node.
    fn complete_dialogue(&mut self, events: &mut Vec<DialogueEvent>)
        requires
            old(self).current_node_name is Some,
            !has_complete(old(events)@),
            events_options_ok(old(events)@),
            !has_options(old(events)@),
        ensures
            final(self).state == ExecutionState::Complete,
            final(self).current_node is None,
            final(self).current_node_name is None,
            final(self).program == old(self).program,
            final(self).string_table == old(self).string_table,
            final(self).current_options@.len() == 0,
            has_complete(final(events)@),
            !has_options(final(events)@),
            events_options_ok(final(events)@),
            final(events)@.len() == old(events)@.len() + 2,
            forall|i: int| 0 <= i < old(events)@.len() ==> final(events)@[i] == old(events)@[i],
            final(events)@[final(events)@.len() - 1] is DialogueComplete,
            final(events)@[final(events)@.len() - 2] is NodeComplete,
    {
        let name = match &self.current_node_name {
            Some(n) => n.clone(),
            None => String::new(),
        };
        let ghost evs0 = events@;
        events.push(DialogueEvent::NodeComplete(name));
        proof {
            lemma_events_push(evs0, events@.last());
        }
        let ghost evs1 = events@;
        events.push(DialogueEvent::DialogueComplete);
        proof {
            lemma_events_push(evs1, events@.last());
        }
        self.state = ExecutionState::Complete;
        self.current_node = None;
        self.current_node_name = None;
        self.pc = 0;
        self.stack = Vec::new();
        self.current_options = Vec::new();
        self.option_destinations = Vec::new();
        self.pending_jump = None;
        self.hints_pending = false;
    }
}

impl Default for Dialogue {
    /// The default dialogue has no program loaded.
    fn default() -> (r: Self)
        ensures
            r.program is None,
            r.state == ExecutionState::Stopped,
    {
        Dialogue::new()
    }
}

} // verus!
