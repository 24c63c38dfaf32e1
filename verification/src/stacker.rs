//! A stack-machine composer of operators.
//!
//! A `Stacker` owns a flat array of operators and a linear instruction list
//! over a numeric stack. Unlike a combinator tree, both can be spliced and
//! reordered freely without rebuilding an owned tree, at the cost of manual
//! stack bookkeeping. An out-of-range operator index is a defined abort:
//! a zero is pushed and the remaining instructions are skipped.

use vstd::prelude::*;

use crate::fixed::{sat64, Fixed};
use crate::operator::Operator;
use crate::pcm::{Sample, SampleBank, SampleID};
use crate::time::Time;

verus! {

/// One instruction of the stack machine.
#[derive(Debug, Clone, Copy, PartialEq, Eq, Structural)]
pub enum StackInstruction {
    /// Pushes a constant value.
    Constant(Fixed),
    /// Pushes the input, given to `sample` as the phase offset.
    InputPhaseOffset,
    /// Pops a phase offset, samples the operator at the given index with it,
    /// and pushes the result (zero for silence). An out-of-range index
    /// pushes zero and halts execution.
    Sample(u64),
    /// Pops two values and pushes their sum.
    Add,
    /// Pushes a copy of the current top value, or zero on an empty stack.
    Dupe,
}

/// Combines operators with a simple stack-based executor.
#[derive(Debug)]
pub struct Stacker {
    pub operators: Vec<Operator>,
    pub instructions: Vec<StackInstruction>,
}

impl Clone for Stacker {
    /// A deep copy: the clone is the same machine value.
    fn clone(&self) -> (res: Self)
        ensures
            res.operators@ == self.operators@,
            res.instructions@ == self.instructions@,
    {
        let mut operators: Vec<Operator> = Vec::new();
        let mut i: usize = 0;
        while i < self.operators.len()
            invariant
                i <= self.operators.len(),
                operators@ == self.operators@.subrange(0, i as int),
            decreases self.operators.len() - i,
        {
            operators.push(self.operators[i].clone());
            proof {
                assert(operators@ =~= self.operators@.subrange(0, i + 1));
            }
            i = i + 1;
        }
        proof {
            assert(operators@ =~= self.operators@);
        }
        let mut instructions: Vec<StackInstruction> = Vec::new();
        let mut j: usize = 0;
        while j < self.instructions.len()
            invariant
                j <= self.instructions.len(),
                instructions@ == self.instructions@.subrange(0, j as int),
            decreases self.instructions.len() - j,
        {
            instructions.push(self.instructions[j]);
            proof {
                assert(instructions@ =~= self.instructions@.subrange(0, j + 1));
            }
            j = j + 1;
        }
        proof {
            assert(instructions@ =~= self.instructions@);
        }
        Stacker { operators, instructions }
    }
}

/// Runs the machine over the remaining instructions: answers the operators
/// (sampling mutates them) and the final stack. Execution halts early on an
/// out-of-range operator index, leaving a zero on top.
pub open spec fn spec_run(
    ops: Seq<Operator>,
    instrs: Seq<StackInstruction>,
    bank: Map<SampleID, Sample>,
    t: Time,
    po: Fixed,
    stack: Seq<Fixed>,
) -> (Seq<Operator>, Seq<Fixed>)
    decreases instrs.len(),
{
    if instrs.len() == 0 {
        (ops, stack)
    } else {
        let rest = instrs.subrange(1, instrs.len() as int);
        match instrs[0] {
            StackInstruction::Constant(c) => spec_run(ops, rest, bank, t, po, stack.push(c)),
            StackInstruction::InputPhaseOffset => spec_run(ops, rest, bank, t, po, stack.push(po)),
            StackInstruction::Sample(i) => {
                let offset = if stack.len() == 0 {
                    (Fixed { numer: 0 })
                } else {
                    stack.last()
                };
                let popped = if stack.len() == 0 {
                    stack
                } else {
                    stack.drop_last()
                };
                if i < ops.len() {
                    let stepped = ops[i as int].spec_sample(bank, t, offset);
                    let value = match stepped.1 {
                        Some(v) => v,
                        None => (Fixed { numer: 0 }),
                    };
                    spec_run(ops.update(i as int, stepped.0), rest, bank, t, po, popped.push(value))
                } else {
                    (ops, popped.push((Fixed { numer: 0 })))
                }
            },
            StackInstruction::Add => {
                let lhs = if stack.len() == 0 {
                    (Fixed { numer: 0 })
                } else {
                    stack.last()
                };
                let once = if stack.len() == 0 {
                    stack
                } else {
                    stack.drop_last()
                };
                let rhs = if once.len() == 0 {
                    (Fixed { numer: 0 })
                } else {
                    once.last()
                };
                let twice = if once.len() == 0 {
                    once
                } else {
                    once.drop_last()
                };
                let sum = (Fixed { numer: sat64(lhs.numer + rhs.numer) as i64 });
                spec_run(ops, rest, bank, t, po, twice.push(sum))
            },
            StackInstruction::Dupe => {
                let top = if stack.len() == 0 {
                    (Fixed { numer: 0 })
                } else {
                    stack.last()
                };
                spec_run(ops, rest, bank, t, po, stack.push(top))
            },
        }
    }
}

/// The machine's final answer for a run started on an empty stack: the
/// mutated operators, and the top of the final stack (`None` if empty).
pub open spec fn spec_result(
    s: Stacker,
    bank: Map<SampleID, Sample>,
    t: Time,
    po: Fixed,
) -> (Seq<Operator>, Option<Fixed>) {
    let run = spec_run(s.operators@, s.instructions@, bank, t, po, Seq::empty());
    (
        run.0,
        if run.1.len() == 0 {
            None
        } else {
            Some(run.1.last())
        },
    )
}

/// The instruction list `chain` builds: the input phase offset, then one
/// sampling of each operator from the last index down to the first, each
/// feeding its output to the next as a phase offset.
pub open spec fn chain_instructions(n: int) -> Seq<StackInstruction> {
    Seq::new(
        (n + 1) as nat,
        |j: int|
            if j == 0 {
                StackInstruction::InputPhaseOffset
            } else {
                StackInstruction::Sample((n - j) as u64)
            },
    )
}

/// The instruction list `add` builds for a non-empty operator list: for each
/// operator in order, a zero phase offset, its sampling, and an addition.
pub open spec fn add_instructions(n: int) -> Seq<StackInstruction> {
    Seq::new(
        (3 * n) as nat,
        |j: int|
            if j % 3 == 0 {
                StackInstruction::Constant((Fixed { numer: 0 }))
            } else if j % 3 == 1 {
                StackInstruction::Sample((j / 3) as u64)
            } else {
                StackInstruction::Add
            },
    )
}

impl Stacker {
    /// A phase-modulation pipeline over the operators, flattened: the last
    /// operator is sampled with the input phase offset, and each output
    /// becomes the phase offset of the operator before it.
    pub fn chain(operators: Vec<Operator>) -> (r: Stacker)
        ensures
            r.operators == operators,
            r.instructions@ == chain_instructions(operators@.len() as int),
    {
        let n = operators.len();
        let mut instructions: Vec<StackInstruction> = Vec::new();
        instructions.push(StackInstruction::InputPhaseOffset);
        let mut i: usize = n;
        while i > 0
            invariant
                i <= n,
                instructions@.len() == n - i + 1,
                instructions@[0] == StackInstruction::InputPhaseOffset,
                forall|j: int|
                    1 <= j < instructions@.len() ==> instructions@[j] == StackInstruction::Sample(
                        (n - j) as u64,
                    ),
            decreases i,
        {
            i = i - 1;
            instructions.push(StackInstruction::Sample(i as u64));
        }
        proof {
            assert(instructions@ =~= chain_instructions(operators@.len() as int));
        }
        Stacker { operators, instructions }
    }

    /// A summation over the operators: each is sampled with a zero phase
    /// offset and the results are added up. An empty operator list degrades
    /// to echoing the input phase offset.
    pub fn add(operators: Vec<Operator>) -> (r: Stacker)
        ensures
            r.operators == operators,
            operators@.len() == 0 ==> r.instructions@ == seq![StackInstruction::InputPhaseOffset],
            operators@.len() > 0 ==> r.instructions@ == add_instructions(operators@.len() as int),
    {
        let n = operators.len();
        let mut instructions: Vec<StackInstruction> = Vec::new();
        if n == 0 {
            instructions.push(StackInstruction::InputPhaseOffset);
            proof {
                assert(instructions@ =~= seq![StackInstruction::InputPhaseOffset]);
            }
        } else {
            let mut i: usize = 0;
            while i < n
                invariant
                    i <= n,
                    instructions@.len() == 3 * i,
                    forall|j: int|
                        0 <= j < instructions@.len() ==> instructions@[j] == add_instructions(
                            n as int,
                        )[j],
                decreases n - i,
            {
                instructions.push(StackInstruction::Constant(Fixed::zero()));
                instructions.push(StackInstruction::Sample(i as u64));
                instructions.push(StackInstruction::Add);
                proof {
                    vstd::arithmetic::div_mod::lemma_fundamental_div_mod_converse(
                        3 * i as int,
                        3,
                        i as int,
                        0,
                    );
                    vstd::arithmetic::div_mod::lemma_fundamental_div_mod_converse(
                        3 * i as int + 1,
                        3,
                        i as int,
                        1,
                    );
                    vstd::arithmetic::div_mod::lemma_fundamental_div_mod_converse(
                        3 * i as int + 2,
                        3,
                        i as int,
                        2,
                    );
                }
                i = i + 1;
            }
            proof {
                assert(instructions@ =~= add_instructions(n as int));
            }
        }
        Stacker { operators, instructions }
    }

    /// Starts every operator, in order.
    pub fn play(&mut self, frequency: Fixed, volume: Fixed)
        ensures
            final(self).instructions@ == old(self).instructions@,
            final(self).operators@.len() == old(self).operators@.len(),
            forall|i: int|
                0 <= i < old(self).operators@.len() ==> final(self).operators@[i] == old(
                    self,
                ).operators@[i].spec_play(frequency, volume),
    {
        let n = self.operators.len();
        let mut i: usize = 0;
        while i < n
            invariant
                i <= n,
                n == self.operators.len(),
                self.instructions@ == old(self).instructions@,
                forall|j: int|
                    i <= j < n ==> self.operators@[j] == old(self).operators@[j],
                forall|j: int|
                    0 <= j < i ==> self.operators@[j] == old(self).operators@[j].spec_play(
                        frequency,
                        volume,
                    ),
            decreases n - i,
        {
            let mut op = self.operators.remove(i);
            op.play(frequency, volume);
            self.operators.insert(i, op);
            i = i + 1;
        }
    }

    /// Cuts every operator, in order.
    pub fn cut(&mut self)
        ensures
            final(self).instructions@ == old(self).instructions@,
            final(self).operators@.len() == old(self).operators@.len(),
            forall|i: int|
                0 <= i < old(self).operators@.len() ==> final(self).operators@[i] == old(
                    self,
                ).operators@[i].spec_cut(),
    {
        let n = self.operators.len();
        let mut i: usize = 0;
        while i < n
            invariant
                i <= n,
                n == self.operators.len(),
                self.instructions@ == old(self).instructions@,
                forall|j: int|
                    i <= j < n ==> self.operators@[j] == old(self).operators@[j],
                forall|j: int|
                    0 <= j < i ==> self.operators@[j] == old(self).operators@[j].spec_cut(),
            decreases n - i,
        {
            let mut op = self.operators.remove(i);
            op.cut();
            self.operators.insert(i, op);
            i = i + 1;
        }
    }

    /// Releases every operator, in order.
    pub fn release(&mut self)
        ensures
            final(self).instructions@ == old(self).instructions@,
            final(self).operators@.len() == old(self).operators@.len(),
            forall|i: int|
                0 <= i < old(self).operators@.len() ==> final(self).operators@[i] == old(
                    self,
                ).operators@[i].spec_release(),
    {
        let n = self.operators.len();
        let mut i: usize = 0;
        while i < n
            invariant
                i <= n,
                n == self.operators.len(),
                self.instructions@ == old(self).instructions@,
                forall|j: int|
                    i <= j < n ==> self.operators@[j] == old(self).operators@[j],
                forall|j: int|
                    0 <= j < i ==> self.operators@[j] == old(self).operators@[j].spec_release(),
            decreases n - i,
        {
            let mut op = self.operators.remove(i);
            op.release();
            self.operators.insert(i, op);
            i = i + 1;
        }
    }

    /// Executes the instructions against the operators and answers the top
    /// of the stack, or `None` for an empty stack.
    #[verifier::rlimit(60)]
    pub fn sample(&mut self, data: &SampleBank, global_time: Time, phase_offset: Fixed) -> (r:
        Option<Fixed>)
        requires
            data.wf(),
            global_time.wf(),
        ensures
            final(self).operators@ == spec_result(
                *old(self),
                data.samples@,
                global_time,
                phase_offset,
            ).0,
            final(self).instructions@ == old(self).instructions@,
            r == spec_result(*old(self), data.samples@, global_time, phase_offset).1,
    {
        let ghost bankv = data.samples@;
        let ghost orig_ops = self.operators@;
        let ghost orig_instrs = self.instructions@;
        let mut stack: Vec<Fixed> = Vec::new();
        let mut halted = false;
        let n = self.instructions.len();
        let mut ii: usize = 0;
        proof {
            assert(orig_instrs.subrange(0, n as int) =~= orig_instrs);
            assert(stack@ =~= Seq::<Fixed>::empty());
        }
        while ii < n && !halted
            invariant
                data.wf(),
                global_time.wf(),
                bankv == data.samples@,
                ii <= n,
                n == self.instructions.len(),
                self.instructions@ == orig_instrs,
                !halted ==> spec_run(orig_ops, orig_instrs, bankv, global_time, phase_offset, Seq::empty())
                    == spec_run(
                    self.operators@,
                    orig_instrs.subrange(ii as int, n as int),
                    bankv,
                    global_time,
                    phase_offset,
                    stack@,
                ),
                halted ==> spec_run(orig_ops, orig_instrs, bankv, global_time, phase_offset, Seq::empty())
                    == (self.operators@, stack@),
            decreases n - ii,
        {
            let ghost suffix = orig_instrs.subrange(ii as int, n as int);
            let ghost rest = orig_instrs.subrange(ii as int + 1, n as int);
            let ghost ops_b = self.operators@;
            let ghost st_b = stack@;
            proof {
                assert(suffix[0] == orig_instrs[ii as int]);
                assert(suffix.subrange(1, suffix.len() as int) =~= rest);
            }
            let instr = self.instructions[ii];
            match instr {
                StackInstruction::Constant(c) => {
                    stack.push(c);
                    proof {
                        assert(spec_run(ops_b, suffix, bankv, global_time, phase_offset, st_b)
                            == spec_run(ops_b, rest, bankv, global_time, phase_offset, st_b.push(c)));
                    }
                },
                StackInstruction::InputPhaseOffset => {
                    stack.push(phase_offset);
                    proof {
                        assert(spec_run(ops_b, suffix, bankv, global_time, phase_offset, st_b)
                            == spec_run(
                            ops_b,
                            rest,
                            bankv,
                            global_time,
                            phase_offset,
                            st_b.push(phase_offset),
                        ));
                    }
                },
                StackInstruction::Sample(opi) => {
                    let offset = match stack.pop() {
                        Some(v) => v,
                        None => Fixed::zero(),
                    };
                    proof {
                        if st_b.len() > 0 {
                            assert(stack@ =~= st_b.drop_last());
                        }
                    }
                    if opi < self.operators.len() as u64 {
                        let mut op = self.operators.remove(opi as usize);
                        let out = op.sample(data, global_time, offset);
                        let value = match out {
                            Some(v) => v,
                            None => Fixed::zero(),
                        };
                        self.operators.insert(opi as usize, op);
                        stack.push(value);
                        proof {
                            let spec_offset = if st_b.len() == 0 {
                                (Fixed { numer: 0 })
                            } else {
                                st_b.last()
                            };
                            assert(offset == spec_offset);
                            let spec_popped = if st_b.len() == 0 {
                                st_b
                            } else {
                                st_b.drop_last()
                            };
                            let stepped = ops_b[opi as int].spec_sample(
                                bankv,
                                global_time,
                                offset,
                            );
                            assert(out == stepped.1);
                            let spec_value = match stepped.1 {
                                Some(v) => v,
                                None => (Fixed { numer: 0 }),
                            };
                            assert(value == spec_value);
                            assert(stack@ == spec_popped.push(spec_value));
                            assert(self.operators@ =~= ops_b.update(opi as int, stepped.0));
                            assert(spec_run(ops_b, suffix, bankv, global_time, phase_offset, st_b)
                                == spec_run(
                                ops_b.update(opi as int, stepped.0),
                                rest,
                                bankv,
                                global_time,
                                phase_offset,
                                stack@,
                            ));
                        }
                    } else {
                        stack.push(Fixed::zero());
                        halted = true;
                        proof {
                            assert(spec_run(ops_b, suffix, bankv, global_time, phase_offset, st_b)
                                == (ops_b, stack@));
                        }
                    }
                },
                StackInstruction::Add => {
                    let lhs = match stack.pop() {
                        Some(v) => v,
                        None => Fixed::zero(),
                    };
                    proof {
                        if st_b.len() > 0 {
                            assert(stack@ =~= st_b.drop_last());
                        }
                    }
                    let ghost st_once = stack@;
                    let rhs = match stack.pop() {
                        Some(v) => v,
                        None => Fixed::zero(),
                    };
                    proof {
                        if st_once.len() > 0 {
                            assert(stack@ =~= st_once.drop_last());
                        }
                    }
                    stack.push(lhs.add(rhs));
                    proof {
                        assert(spec_run(ops_b, suffix, bankv, global_time, phase_offset, st_b)
                            == spec_run(ops_b, rest, bankv, global_time, phase_offset, stack@));
                    }
                },
                StackInstruction::Dupe => {
                    let top = if stack.len() == 0 {
                        Fixed::zero()
                    } else {
                        stack[stack.len() - 1]
                    };
                    stack.push(top);
                    proof {
                        assert(spec_run(ops_b, suffix, bankv, global_time, phase_offset, st_b)
                            == spec_run(ops_b, rest, bankv, global_time, phase_offset, stack@));
                    }
                },
            }
            ii = ii + 1;
        }
        proof {
            if !halted {
                assert(orig_instrs.subrange(ii as int, n as int).len() == 0);
            }
        }
        stack.pop()
    }
}

} // verus!
