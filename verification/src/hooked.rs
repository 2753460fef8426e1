//! A small processor with an accumulator and hooks: a hook is set by an
//! instruction, counts the instructions that follow, and acts on the
//! accumulator when its count runs out.

use vstd::prelude::*;
use vstd::std_specs::convert::FromSpecImpl;

verus! {

/// The number of an instruction of a program.
#[derive(Copy, Debug, Clone, PartialEq, Eq, Structural)]
pub struct InstructionNumber(pub u32);

impl From<u32> for InstructionNumber {
    fn from(n: u32) -> (number: InstructionNumber) {
        InstructionNumber(n)
    }
}

impl FromSpecImpl<u32> for InstructionNumber {
    open spec fn obeys_from_spec() -> bool {
        true
    }

    open spec fn from_spec(n: u32) -> InstructionNumber {
        InstructionNumber(n)
    }
}

impl From<InstructionNumber> for u32 {
    fn from(n: InstructionNumber) -> (number: u32) {
        n.0
    }
}

impl FromSpecImpl<InstructionNumber> for u32 {
    open spec fn obeys_from_spec() -> bool {
        true
    }

    open spec fn from_spec(n: InstructionNumber) -> u32 {
        n.0
    }
}

/// What a hook does to the accumulator when it acts.
#[derive(Copy, Debug, Clone, PartialEq, Eq, Structural)]
pub enum HookAction {
    Add(u32),
    Subtract(u32),
    Clear,
}

/// When a jump is taken.
#[derive(Copy, Debug, Clone, PartialEq, Eq, Structural)]
pub enum Condition {
    Always,
    Never,
    /// The accumulator is at most the given number.
    AccumulatorAtMost(u32),
    /// The accumulator is larger than the given number.
    AccumulatorAbove(u32),
}

/// An action that waits for its time: it acts after `num_left` instructions.
#[derive(Copy, Debug, Clone, PartialEq, Eq, Structural)]
pub struct Hook {
    pub num_left: u32,
    pub callback: HookAction,
}

/// What a program is made of.
#[derive(Copy, Debug, Clone, PartialEq, Eq, Structural)]
pub enum Instruction {
    /// Do nothing.
    Nop,
    /// Show the accumulator.
    PrintAccumulator,
    /// Go to the instruction with the given number, counted from one, when
    /// the condition holds.
    JumpIfCondition(Condition, InstructionNumber),
    /// Add to the accumulator.
    AddLiteral(u32),
    /// Subtract from the accumulator.
    SubLiteral(u32),
    /// Set a hook.
    Callback(Hook),
    /// Stop.
    Quit,
}

/// What went wrong in a step.
#[derive(Copy, Debug, Clone, PartialEq, Eq, Structural)]
pub enum Fault {
    /// The program has no instruction at the place of the counter.
    NoSuchInstruction,
    /// The accumulator or the counter ran over.
    Overflow,
    /// The accumulator ran under.
    Underflow,
    /// A jump to an instruction before the first.
    BadJump,
    /// A hook was set that had no instructions left to wait for.
    SpentHook,
}

/// What a step reports to whoever watches the processor.
#[derive(Copy, Debug, Clone, PartialEq, Eq, Structural)]
pub enum Event {
    NoOp,
    /// The accumulator was shown; it held the given number.
    Printed(u32),
    Adding(u32),
    Subtracting(u32),
    CallbackSet,
    ConditionalJump,
}

/// How a step ended.
#[derive(Copy, Debug, Clone, PartialEq, Eq, Structural)]
pub enum Step {
    /// The instruction was carried out and the program goes on.
    Ran,
    /// The program stopped.
    Quit,
    Fault(Fault),
}

/// The processor.
#[derive(Debug)]
pub struct Cpu {
    pub current_instruction: InstructionNumber,
    pub accumulator: u32,
    pub hooks: Vec<Hook>,
}

/// A processor as plain values.
pub ghost struct CpuView {
    pub current: u32,
    pub accumulator: u32,
    pub hooks: Seq<Hook>,
}

impl View for Cpu {
    type V = CpuView;

    open spec fn view(&self) -> CpuView {
        CpuView {
            current: self.current_instruction.0,
            accumulator: self.accumulator,
            hooks: self.hooks@,
        }
    }
}

impl Condition {
    pub open spec fn spec_holds(self, accumulator: u32) -> bool {
        match self {
            Condition::Always => true,
            Condition::Never => false,
            Condition::AccumulatorAtMost(limit) => accumulator <= limit,
            Condition::AccumulatorAbove(limit) => accumulator > limit,
        }
    }

    /// True when the condition holds of the accumulator.
    #[verifier::when_used_as_spec(spec_holds)]
    pub fn holds(self, accumulator: u32) -> (held: bool)
        ensures
            held == self.spec_holds(accumulator),
    {
        match self {
            Condition::Always => true,
            Condition::Never => false,
            Condition::AccumulatorAtMost(limit) => accumulator <= limit,
            Condition::AccumulatorAbove(limit) => accumulator > limit,
        }
    }
}

impl HookAction {
    /// The accumulator after the action, or the fault where it does not fit.
    pub open spec fn spec_act(self, accumulator: u32) -> Result<u32, Fault> {
        match self {
            HookAction::Add(n) => if accumulator + n <= u32::MAX {
                Ok((accumulator + n) as u32)
            } else {
                Err(Fault::Overflow)
            },
            HookAction::Subtract(n) => if accumulator >= n {
                Ok((accumulator - n) as u32)
            } else {
                Err(Fault::Underflow)
            },
            HookAction::Clear => Ok(0),
        }
    }

    /// Acts on the accumulator.
    #[verifier::when_used_as_spec(spec_act)]
    pub fn act(self, accumulator: u32) -> (after: Result<u32, Fault>)
        ensures
            after == self.spec_act(accumulator),
    {
        match self {
            HookAction::Add(n) => match accumulator.checked_add(n) {
                Some(sum) => Ok(sum),
                None => Err(Fault::Overflow),
            },
            HookAction::Subtract(n) => if accumulator >= n {
                Ok(accumulator - n)
            } else {
                Err(Fault::Underflow)
            },
            HookAction::Clear => Ok(0),
        }
    }
}

impl Hook {
    pub fn new(num_left: u32, callback: HookAction) -> (hook: Hook)
        ensures
            hook == (Hook { num_left, callback }),
    {
        Hook { num_left, callback }
    }

    /// Lets the hook act on the processor's accumulator.
    pub fn call(&self, cpu: &mut Cpu) -> (done: Result<(), Fault>)
        ensures
            match self.callback.spec_act(old(cpu).accumulator) {
                Ok(accumulator) => done is Ok && final(cpu)@ == (CpuView {
                    accumulator,
                    ..old(cpu)@
                }),
                Err(fault) => done == Err::<(), Fault>(fault) && final(cpu)@ == old(cpu)@,
            },
    {
        match self.callback.act(cpu.accumulator) {
            Ok(accumulator) => {
                cpu.accumulator = accumulator;
                Ok(())
            },
            Err(fault) => Err(fault),
        }
    }
}

/// True when some hook has no instruction left to wait for.
pub open spec fn any_spent(hooks: Seq<Hook>) -> bool {
    exists|i: int| 0 <= i < hooks.len() && (#[trigger] hooks[i]).num_left == 0
}

/// The hooks that still wait after one more instruction, each with one
/// instruction less to wait for.
pub open spec fn waiting(hooks: Seq<Hook>) -> Seq<Hook>
    decreases hooks.len(),
{
    if hooks.len() == 0 {
        hooks
    } else if hooks.last().num_left <= 1 {
        waiting(hooks.drop_last())
    } else {
        waiting(hooks.drop_last()).push(
            Hook { num_left: (hooks.last().num_left - 1) as u32, ..hooks.last() },
        )
    }
}

/// The hooks whose time has come after one more instruction.
pub open spec fn due(hooks: Seq<Hook>) -> Seq<Hook>
    decreases hooks.len(),
{
    if hooks.len() == 0 {
        hooks
    } else if hooks.last().num_left == 1 {
        due(hooks.drop_last()).push(Hook { num_left: 0, ..hooks.last() })
    } else {
        due(hooks.drop_last())
    }
}

/// The accumulator after the hooks have acted, one after the other, or the
/// first fault.
pub open spec fn acted(accumulator: u32, hooks: Seq<Hook>) -> Result<u32, Fault>
    decreases hooks.len(),
{
    if hooks.len() == 0 {
        Ok(accumulator)
    } else {
        match acted(accumulator, hooks.drop_last()) {
            Ok(before) => hooks.last().callback.spec_act(before),
            Err(fault) => Err(fault),
        }
    }
}

/// The processor after the instruction itself, before the counter moves
/// on; with the events that it reports.
pub open spec fn carried_out(cpu: CpuView, instruction: Instruction) -> (Result<CpuView, Fault>, Seq<
    Event,
>) {
    match instruction {
        Instruction::Nop => (Ok(cpu), seq![Event::NoOp]),
        Instruction::PrintAccumulator => (Ok(cpu), seq![Event::Printed(cpu.accumulator)]),
        Instruction::AddLiteral(n) => (
            if cpu.accumulator + n <= u32::MAX {
                Ok(CpuView { accumulator: (cpu.accumulator + n) as u32, ..cpu })
            } else {
                Err(Fault::Overflow)
            },
            seq![Event::Adding(n)],
        ),
        Instruction::SubLiteral(n) => (
            if cpu.accumulator >= n {
                Ok(CpuView { accumulator: (cpu.accumulator - n) as u32, ..cpu })
            } else {
                Err(Fault::Underflow)
            },
            seq![Event::Subtracting(n)],
        ),
        Instruction::Callback(hook) => (
            Ok(CpuView { hooks: cpu.hooks.push(hook), ..cpu }),
            seq![Event::CallbackSet],
        ),
        Instruction::JumpIfCondition(condition, number) => (
            if !condition.spec_holds(cpu.accumulator) {
                Ok(cpu)
            } else if number.0 >= 2 {
                Ok(CpuView { current: (number.0 - 2) as u32, ..cpu })
            } else {
                Err(Fault::BadJump)
            },
            seq![Event::ConditionalJump],
        ),
        Instruction::Quit => (Ok(cpu), Seq::empty()),
    }
}

/// The processor after the counter has moved on and the hooks have had
/// their turn: every hook has one instruction less to wait for, and those
/// that have none left act, in their order, and are gone.
pub open spec fn moved_on(cpu: CpuView) -> Result<CpuView, Fault> {
    if cpu.current == u32::MAX {
        Err(Fault::Overflow)
    } else if any_spent(cpu.hooks) {
        Err(Fault::SpentHook)
    } else {
        match acted(cpu.accumulator, due(cpu.hooks)) {
            Ok(accumulator) => Ok(
                CpuView {
                    current: (cpu.current + 1) as u32,
                    accumulator,
                    hooks: waiting(cpu.hooks),
                },
            ),
            Err(fault) => Err(fault),
        }
    }
}

/// How one step ends, the processor after it, and the events that it
/// reports. After a fault the processor is of no use.
pub open spec fn stepped(cpu: CpuView, program: Seq<Instruction>) -> (Step, Option<CpuView>, Seq<
    Event,
>) {
    if cpu.current >= program.len() {
        (Step::Fault(Fault::NoSuchInstruction), None, Seq::empty())
    } else {
        let instruction = program[cpu.current as int];
        let (result, events) = carried_out(cpu, instruction);
        match result {
            Err(fault) => (Step::Fault(fault), None, events),
            Ok(after) => if instruction == Instruction::Quit {
                (Step::Quit, Some(after), events)
            } else {
                match moved_on(after) {
                    Ok(next) => (Step::Ran, Some(next), events),
                    Err(fault) => (Step::Fault(fault), None, events),
                }
            },
        }
    }
}

/// Lets every hook wait one instruction less and gives those whose time
/// has come, in their order; the hooks that still wait stay.
fn tick(hooks: &Vec<Hook>) -> (parts: Option<(Vec<Hook>, Vec<Hook>)>)
    ensures
        match parts {
            Some((still, now)) => !any_spent(hooks@) && still@ == waiting(hooks@) && now@ == due(
                hooks@,
            ),
            None => any_spent(hooks@),
        },
{
    let mut still: Vec<Hook> = Vec::new();
    let mut now: Vec<Hook> = Vec::new();
    let mut i: usize = 0;
    while i < hooks.len()
        invariant
            i <= hooks@.len(),
            still@ == waiting(hooks@.take(i as int)),
            now@ == due(hooks@.take(i as int)),
            forall|k: int| 0 <= k < i ==> (#[trigger] hooks@[k]).num_left != 0,
        decreases hooks@.len() - i,
    {
        proof {
            assert(hooks@.take(i + 1).drop_last() == hooks@.take(i as int));
            assert(hooks@.take(i + 1).last() == hooks@[i as int]);
        }
        let hook = hooks[i];
        if hook.num_left == 0 {
            return None;
        }
        let left = hook.num_left - 1;
        if left == 0 {
            now.push(Hook { num_left: 0, callback: hook.callback });
        } else {
            still.push(Hook { num_left: left, callback: hook.callback });
        }
        i += 1;
    }
    proof {
        assert(hooks@.take(hooks@.len() as int) == hooks@);
    }
    Some((still, now))
}

impl Cpu {
    /// A processor at the first instruction, with an empty accumulator and
    /// no hooks.
    pub fn new() -> (cpu: Cpu)
        ensures
            cpu@ == (CpuView { current: 0, accumulator: 0, hooks: Seq::empty() }),
    {
        Cpu { current_instruction: InstructionNumber(0), accumulator: 0, hooks: Vec::new() }
    }

    /// Moves the counter on and gives the hooks their turn.
    fn move_on(&mut self) -> (done: Result<(), Fault>)
        ensures
            match moved_on(old(self)@) {
                Ok(next) => done is Ok && final(self)@ == next,
                Err(fault) => done == Err::<(), Fault>(fault),
            },
    {
        if self.current_instruction.0 == u32::MAX {
            return Err(Fault::Overflow);
        }
        let (still, now) = match tick(&self.hooks) {
            Some(parts) => parts,
            None => {
                return Err(Fault::SpentHook);
            },
        };
        let mut accumulator = self.accumulator;
        let mut i: usize = 0;
        while i < now.len()
            invariant
                i <= now@.len(),
                self@ == old(self)@,
                old(self)@.current != u32::MAX,
                !any_spent(old(self)@.hooks),
                now@ == due(old(self)@.hooks),
                still@ == waiting(old(self)@.hooks),
                acted(self.accumulator, now@.take(i as int)) == Ok::<u32, Fault>(accumulator),
            decreases now@.len() - i,
        {
            proof {
                assert(now@.take(i + 1).drop_last() == now@.take(i as int));
                assert(now@.take(i + 1).last() == now@[i as int]);
            }
            accumulator = match now[i].callback.act(accumulator) {
                Ok(after) => after,
                Err(fault) => {
                    proof {
                        lemma_acted_fault(self.accumulator, now@, i + 1);
                    }
                    return Err(fault);
                },
            };
            i += 1;
        }
        proof {
            assert(now@.take(now@.len() as int) == now@);
        }
        self.current_instruction = InstructionNumber(self.current_instruction.0 + 1);
        self.accumulator = accumulator;
        self.hooks = still;
        Ok(())
    }

    /// Carries out the instruction at the counter: the instruction itself,
    /// then the move of the counter and the turn of the hooks. The events
    /// of the step are put at the end of `events`.
    pub fn step(&mut self, program: &Vec<Instruction>, events: &mut Vec<Event>) -> (step: Step)
        ensures
            step == stepped(old(self)@, program@).0,
            final(events)@ == old(events)@ + stepped(old(self)@, program@).2,
            stepped(old(self)@, program@).1 is Some ==> final(self)@ == stepped(
                old(self)@,
                program@,
            ).1->0,
    {
        let place = self.current_instruction.0 as usize;
        if place >= program.len() {
            proof {
                assert(events@ + Seq::<Event>::empty() == events@);
            }
            return Step::Fault(Fault::NoSuchInstruction);
        }
        let instruction = program[place];
        let ghost before = events@;
        match instruction {
            Instruction::Nop => {
                events.push(Event::NoOp);
            },
            Instruction::PrintAccumulator => {
                events.push(Event::Printed(self.accumulator));
            },
            Instruction::AddLiteral(n) => {
                events.push(Event::Adding(n));
                match self.accumulator.checked_add(n) {
                    Some(sum) => {
                        self.accumulator = sum;
                    },
                    None => {
                        proof {
                            assert(events@ == before + seq![Event::Adding(n)]);
                        }
                        return Step::Fault(Fault::Overflow);
                    },
                }
            },
            Instruction::SubLiteral(n) => {
                events.push(Event::Subtracting(n));
                if self.accumulator >= n {
                    self.accumulator = self.accumulator - n;
                } else {
                    proof {
                        assert(events@ == before + seq![Event::Subtracting(n)]);
                    }
                    return Step::Fault(Fault::Underflow);
                }
            },
            Instruction::Callback(hook) => {
                events.push(Event::CallbackSet);
                self.hooks.push(hook);
            },
            Instruction::JumpIfCondition(condition, number) => {
                events.push(Event::ConditionalJump);
                if condition.holds(self.accumulator) {
                    if number.0 >= 2 {
                        self.current_instruction = InstructionNumber(number.0 - 2);
                    } else {
                        proof {
                            assert(events@ == before + seq![Event::ConditionalJump]);
                        }
                        return Step::Fault(Fault::BadJump);
                    }
                }
            },
            Instruction::Quit => {
                proof {
                    assert(events@ + Seq::<Event>::empty() == events@);
                }
                return Step::Quit;
            },
        }
        proof {
            assert(events@ == before + carried_out(old(self)@, instruction).1);
        }
        match self.move_on() {
            Ok(()) => Step::Ran,
            Err(fault) => Step::Fault(fault),
        }
    }

    /// Carries out up to `max_steps` instructions and stops early when the
    /// program stops or a step fails. Says how the last step ended: `Ran`
    /// when the program could go on.
    pub fn run(&mut self, program: &Vec<Instruction>, max_steps: u64, events: &mut Vec<Event>) -> (last:
        Step)
        ensures
            last == ran(old(self)@, program@, max_steps as nat).0,
            final(events)@ == old(events)@ + ran(old(self)@, program@, max_steps as nat).2,
            ran(old(self)@, program@, max_steps as nat).1 is Some ==> final(self)@ == ran(
                old(self)@,
                program@,
                max_steps as nat,
            ).1->0,
    {
        let mut done: u64 = 0;
        proof {
            assert(events@ + Seq::<Event>::empty() == events@);
        }
        while done < max_steps
            invariant
                done <= max_steps,
                ran(old(self)@, program@, done as nat) == (
                    Step::Ran,
                    Some(self@),
                    ran(old(self)@, program@, done as nat).2,
                ),
                events@ == old(events)@ + ran(old(self)@, program@, done as nat).2,
            decreases max_steps - done,
        {
            let ghost before = self@;
            let ghost seen = events@;
            let step = self.step(program, events);
            proof {
                let so_far = ran(old(self)@, program@, done as nat);
                let next = ran(old(self)@, program@, (done + 1) as nat);
                assert(next == (
                    stepped(before, program@).0,
                    stepped(before, program@).1,
                    so_far.2 + stepped(before, program@).2,
                ));
                assert(events@ == old(events)@ + next.2);
            }
            match step {
                Step::Ran => {},
                _ => {
                    proof {
                        lemma_ran_stops(old(self)@, program@, (done + 1) as nat, max_steps as nat);
                    }
                    return step;
                },
            }
            done += 1;
        }
        Step::Ran
    }
}

/// How the last of up to `steps` steps ends, the processor after it, and
/// the events of all of them.
pub open spec fn ran(cpu: CpuView, program: Seq<Instruction>, steps: nat) -> (Step, Option<
    CpuView,
>, Seq<Event>)
    decreases steps,
{
    if steps == 0 {
        (Step::Ran, Some(cpu), Seq::empty())
    } else {
        let before = ran(cpu, program, (steps - 1) as nat);
        if before.0 == Step::Ran && before.1 is Some {
            let next = stepped(before.1->0, program);
            (next.0, next.1, before.2 + next.2)
        } else {
            before
        }
    }
}

/// Once a run has stopped, more steps change nothing.
pub proof fn lemma_ran_stops(cpu: CpuView, program: Seq<Instruction>, at: nat, later: nat)
    requires
        at <= later,
        ran(cpu, program, at).0 != Step::Ran,
    ensures
        ran(cpu, program, later) == ran(cpu, program, at),
    decreases later - at,
{
    if at < later {
        lemma_ran_stops(cpu, program, at, (later - 1) as nat);
    }
}

/// Where the hooks up to a place fail, the hooks all together fail in the
/// same way.
pub proof fn lemma_acted_fault(accumulator: u32, hooks: Seq<Hook>, k: int)
    requires
        0 <= k <= hooks.len(),
        acted(accumulator, hooks.take(k)) is Err,
    ensures
        acted(accumulator, hooks) == acted(accumulator, hooks.take(k)),
    decreases hooks.len() - k,
{
    if k < hooks.len() {
        assert(hooks.take(k + 1).drop_last() == hooks.take(k));
        lemma_acted_fault(accumulator, hooks, k + 1);
    } else {
        assert(hooks.take(k) == hooks);
    }
}

} // verus!
