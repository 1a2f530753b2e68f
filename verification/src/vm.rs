//! The virtual machine: a fixed-capacity value stack and an instruction
//! pointer, driving a dispatch loop over a borrowed chunk.
//!
//! The meaning of a chunk is pinned down by the specification-level
//! interpreter [`spec_run`]: from a given stack and instruction pointer it
//! yields either the final outcome of execution (`Done`), a malformed-chunk
//! failure (`Bad`), or a fatal invariant violation (`Abort`: stack overflow,
//! stack underflow, or an out-of-bounds constant index). `interpret` is
//! verified to return exactly what `spec_run` says; chunks on which
//! `spec_run` aborts are ruled out by its precondition, mirroring the design
//! in which fatal violations are not recoverable error values.

use vstd::prelude::*;

use vstd::pervasive::VecAdditionalExecFns;

use crate::chunk::{spec_be24, Chunk};
use crate::op::{spec_op_of_byte, spec_op_size, op_size, Op};
use crate::value::{add_bits, div_bits, mul_bits, spec_neg_bits, sub_bits, Value};

verus! {

/// Possible error cases during chunk interpreting.
#[derive(Debug, PartialEq, Eq, Structural)]
pub enum InterpretError {
    /// Occurs when a chunk was badly formatted (eg. the bytes don't match
    /// with opcodes + operands).
    BadChunk,
}

/// What executing a chunk from a given state comes to.
pub enum Outcome {
    /// Execution ended: either `Return` reported a value, or the
    /// instruction pointer reached the end of the code. `stack` is the
    /// value stack left behind.
    Done { reported: Option<Value>, stack: Seq<Value> },
    /// The chunk is malformed: a truncated operand or an unrecognized
    /// opcode byte.
    Bad,
    /// A fatal invariant violation: stack overflow, stack underflow, or an
    /// out-of-bounds constant-pool index.
    Abort,
}

/// The result of a binary arithmetic instruction: `a` is the left-hand
/// (second-to-top) operand, `b` the popped top of the stack.
pub open spec fn spec_apply_binary(op: Op, a: Value, b: Value) -> Value {
    match op {
        Op::Add => Value { bits: add_bits(a.bits, b.bits) },
        Op::Subtract => Value { bits: sub_bits(a.bits, b.bits) },
        Op::Multiply => Value { bits: mul_bits(a.bits, b.bits) },
        Op::Divide => Value { bits: div_bits(a.bits, b.bits) },
        _ => a,
    }
}

/// Whether an instruction kind is one of the four binary arithmetic
/// operators.
pub open spec fn spec_is_binary(op: Op) -> bool {
    match op {
        Op::Add | Op::Subtract | Op::Multiply | Op::Divide => true,
        _ => false,
    }
}

/// The specification-level dispatch loop: executes `code` against the
/// constant pool `constants` on a value stack of capacity `cap`, starting
/// from stack `stack` and instruction pointer `ip`.
///
/// Each step reads the opcode byte, advances the pointer by the opcode's
/// fixed size, and fails with `Bad` if the new pointer would pass the end
/// of the code (catching truncated trailing operands) or if the byte is not
/// a recognized opcode; otherwise it applies the instruction's effect.
/// Execution ends at a `Return` or when the pointer reaches the end.
pub open spec fn spec_run(
    code: Seq<u8>,
    constants: Seq<Value>,
    cap: int,
    stack: Seq<Value>,
    ip: int,
) -> Outcome
    decreases code.len() - ip,
{
    if ip < 0 || ip >= code.len() {
        Outcome::Done { reported: None, stack }
    } else {
        let opcode = code[ip];
        let next = ip + spec_op_size(opcode);
        if next > code.len() {
            Outcome::Bad
        } else {
            match spec_op_of_byte(opcode) {
                None => Outcome::Bad,
                Some(op) => if op == Op::Constant || op == Op::ConstantLong {
                    let index = if op == Op::Constant {
                        code[ip + 1] as int
                    } else {
                        spec_be24(code, ip + 1)
                    };
                    if index >= constants.len() || stack.len() >= cap {
                        Outcome::Abort
                    } else {
                        spec_run(code, constants, cap, stack.push(constants[index]), next)
                    }
                } else if spec_is_binary(op) {
                    if stack.len() < 2 {
                        Outcome::Abort
                    } else {
                        let b = stack.last();
                        let a = stack[stack.len() - 2];
                        spec_run(
                            code,
                            constants,
                            cap,
                            stack.drop_last().drop_last().push(spec_apply_binary(op, a, b)),
                            next,
                        )
                    }
                } else if op == Op::Negate {
                    if stack.len() < 1 {
                        Outcome::Abort
                    } else {
                        spec_run(
                            code,
                            constants,
                            cap,
                            stack.drop_last().push(Value { bits: spec_neg_bits(stack.last().bits) }),
                            next,
                        )
                    }
                } else {
                    // op == Op::Return
                    if stack.len() < 1 {
                        Outcome::Abort
                    } else {
                        Outcome::Done { reported: Some(stack.last()), stack: stack.drop_last() }
                    }
                },
            }
        }
    }
}

/// Transient execution state: a fixed-capacity stack of values and the
/// current stack height. The capacity is fixed when the machine is
/// constructed.
pub struct VM {
    /// The stack buffer; its length is the machine's capacity and never
    /// changes.
    pub stack: Vec<Value>,
    /// The number of live values on the stack.
    pub stack_top: usize,
}

impl VM {
    /// The fixed stack capacity this machine was constructed with.
    pub open spec fn capacity(self) -> int {
        self.stack@.len() as int
    }

    /// Structural invariant: the live region never exceeds the buffer.
    pub open spec fn wf(self) -> bool {
        self.stack_top <= self.stack@.len()
    }

    /// The live values on the stack, bottom first.
    pub open spec fn stack_model(self) -> Seq<Value> {
        self.stack@.take(self.stack_top as int)
    }

    /// Creates a machine with a stack of the given fixed capacity.
    pub fn new(stack_size: usize) -> (vm: VM)
        ensures
            vm.wf(),
            vm.capacity() == stack_size,
            vm.stack_model() == Seq::<Value>::empty(),
    {
        let mut stack: Vec<Value> = Vec::new();
        let mut i: usize = 0;
        while i < stack_size
            invariant
                i <= stack_size,
                stack@.len() == i,
            decreases stack_size - i,
        {
            stack.push(Value::new(0));
            i = i + 1;
        }
        let vm = VM { stack, stack_top: 0 };
        proof {
            assert(vm.stack_model() =~= Seq::<Value>::empty());
        }
        vm
    }

    /// Places `value` on top of the stack. Exceeding the capacity is a
    /// fatal condition, ruled out beforehand.
    fn stack_push(&mut self, value: Value)
        requires
            old(self).wf(),
            old(self).stack_top < old(self).stack@.len(),
        ensures
            final(self).wf(),
            final(self).stack@.len() == old(self).stack@.len(),
            final(self).stack_top == old(self).stack_top + 1,
            final(self).stack_model() == old(self).stack_model().push(value),
    {
        proof {
            assert(self.stack@.len() == vstd::std_specs::vec::spec_vec_len(&self.stack));
        }
        self.stack.set(self.stack_top, value);
        self.stack_top = self.stack_top + 1;
        proof {
            assert(self.stack@.take(self.stack_top as int) =~= old(self).stack@.take(
                old(self).stack_top as int,
            ).push(value));
        }
    }

    /// Removes and returns the top of the stack. Popping an empty stack is
    /// a fatal condition, ruled out beforehand.
    fn stack_pop(&mut self) -> (v: Value)
        requires
            old(self).wf(),
            old(self).stack_top >= 1,
        ensures
            final(self).wf(),
            final(self).stack@.len() == old(self).stack@.len(),
            final(self).stack_top == old(self).stack_top - 1,
            v == old(self).stack_model().last(),
            final(self).stack_model() == old(self).stack_model().drop_last(),
    {
        self.stack_top = self.stack_top - 1;
        let v = self.stack[self.stack_top];
        proof {
            assert(self.stack@.take(self.stack_top as int) =~= old(self).stack@.take(
                old(self).stack_top as int,
            ).drop_last());
        }
        v
    }

    /// Pops one value and applies the binary operator `op` in place to the
    /// new stack top (the second-to-top operand is the left-hand side).
    fn op_binary(&mut self, op: Op)
        requires
            old(self).wf(),
            old(self).stack_top >= 2,
            spec_is_binary(op),
        ensures
            final(self).wf(),
            final(self).stack@.len() == old(self).stack@.len(),
            final(self).stack_top == old(self).stack_top - 1,
            final(self).stack_model() == old(self).stack_model().drop_last().drop_last().push(
                spec_apply_binary(
                    op,
                    old(self).stack_model()[old(self).stack_model().len() - 2],
                    old(self).stack_model().last(),
                ),
            ),
    {
        let b = self.stack_pop();
        let mut a = self.stack[self.stack_top - 1];
        let ghost a0 = a;
        proof {
            assert(b == old(self).stack_model().last());
            assert(self.stack_model()[self.stack_top as int - 1] == self.stack@[self.stack_top
                as int - 1]);
            assert(a0 == old(self).stack_model()[old(self).stack_model().len() - 2]);
        }
        match op {
            Op::Add => a.add(&b),
            Op::Subtract => a.subtract(&b),
            Op::Multiply => a.multiply(&b),
            Op::Divide => a.divide(&b),
            _ => (),
        }
        proof {
            assert(a == spec_apply_binary(op, a0, b));
        }
        self.stack.set(self.stack_top - 1, a);
        proof {
            assert(self.stack@.take(self.stack_top as int) =~= old(self).stack@.take(
                old(self).stack_top as int,
            ).drop_last().drop_last().push(spec_apply_binary(op, a0, b)));
        }
    }

    /// Negates the stack top in place.
    fn op_negate(&mut self)
        requires
            old(self).wf(),
            old(self).stack_top >= 1,
        ensures
            final(self).wf(),
            final(self).stack@.len() == old(self).stack@.len(),
            final(self).stack_top == old(self).stack_top,
            final(self).stack_model() == old(self).stack_model().drop_last().push(
                Value { bits: spec_neg_bits(old(self).stack_model().last().bits) },
            ),
    {
        let mut a = self.stack[self.stack_top - 1];
        a.negate();
        self.stack.set(self.stack_top - 1, a);
        proof {
            assert(self.stack@.take(self.stack_top as int) =~= old(self).stack@.take(
                old(self).stack_top as int,
            ).drop_last().push(
                Value { bits: spec_neg_bits(old(self).stack_model().last().bits) },
            ));
        }
    }

    /// Executes `chunk` to completion or failure. The stack starts empty on
    /// every call; a reported value is returned as `Ok(Some(..))`, running
    /// off the end of the code without a `Return` as `Ok(None)`, and a
    /// malformed chunk as `Err(BadChunk)`. Chunks whose execution would hit
    /// a fatal invariant violation are ruled out beforehand.
    pub fn interpret(&mut self, chunk: &Chunk) -> (r: Result<Option<Value>, InterpretError>)
        requires
            old(self).wf(),
            chunk.wf(),
            !(spec_run(
                chunk.code@,
                chunk.constants.values@,
                old(self).capacity(),
                Seq::empty(),
                0,
            ) is Abort),
        ensures
            final(self).wf(),
            final(self).capacity() == old(self).capacity(),
            match spec_run(
                chunk.code@,
                chunk.constants.values@,
                old(self).capacity(),
                Seq::empty(),
                0,
            ) {
                Outcome::Done { reported, stack } => {
                    &&& r == Ok::<Option<Value>, InterpretError>(reported)
                    &&& final(self).stack_model() == stack
                },
                Outcome::Bad => r == Err::<Option<Value>, InterpretError>(
                    InterpretError::BadChunk,
                ),
                Outcome::Abort => false,
            },
    {
        self.stack_top = 0;
        proof {
            assert(self.stack_model() =~= Seq::<Value>::empty());
        }
        if chunk.code.len() == 0 {
            return Ok(None);
        }
        self.run(chunk)
    }

    /// The dispatch loop over the instruction bytes, starting at the first
    /// byte with the current (empty) stack.
    #[verifier::loop_isolation(false)]
    fn run(&mut self, chunk: &Chunk) -> (r: Result<Option<Value>, InterpretError>)
        requires
            old(self).wf(),
            old(self).stack_top == 0,
            chunk.wf(),
            !(spec_run(
                chunk.code@,
                chunk.constants.values@,
                old(self).capacity(),
                Seq::empty(),
                0,
            ) is Abort),
        ensures
            final(self).wf(),
            final(self).capacity() == old(self).capacity(),
            match spec_run(
                chunk.code@,
                chunk.constants.values@,
                old(self).capacity(),
                Seq::empty(),
                0,
            ) {
                Outcome::Done { reported, stack } => {
                    &&& r == Ok::<Option<Value>, InterpretError>(reported)
                    &&& final(self).stack_model() == stack
                },
                Outcome::Bad => r == Err::<Option<Value>, InterpretError>(
                    InterpretError::BadChunk,
                ),
                Outcome::Abort => false,
            },
    {
        let ghost cap = old(self).capacity();
        let ghost outcome = spec_run(
            chunk.code@,
            chunk.constants.values@,
            cap,
            Seq::empty(),
            0,
        );
        proof {
            assert(self.stack_model() =~= Seq::<Value>::empty());
        }
        let code_len: usize = chunk.code.len();
        let mut ip: usize = 0;
        while ip < code_len
            invariant
                self.wf(),
                self.stack@.len() == cap,
                ip <= code_len,
                spec_run(
                    chunk.code@,
                    chunk.constants.values@,
                    cap,
                    self.stack_model(),
                    ip as int,
                ) == outcome,
            decreases code_len - ip,
        {
            let opcode: u8 = chunk.code[ip];
            let size: usize = op_size(opcode);
            // Advance-then-check: validate the new position before touching
            // any operand byte, so truncated trailing operands are caught.
            if size > code_len - ip {
                return Err(InterpretError::BadChunk);
            }
            let next_ip: usize = ip + size;
            let ghost model0 = self.stack_model();
            match Op::try_from(opcode) {
                Err(()) => {
                    return Err(InterpretError::BadChunk);
                },
                Ok(op) => match op {
                    Op::Constant => {
                        let index: usize = chunk.code[ip + 1] as usize;
                        let v = *chunk.get_constant(index);
                        self.stack_push(v);
                    },
                    Op::ConstantLong => {
                        let index: usize = (chunk.code[ip + 1] as usize) * 0x10000 + (chunk.code[ip
                            + 2] as usize) * 0x100 + (chunk.code[ip + 3] as usize);
                        let v = *chunk.get_constant(index);
                        self.stack_push(v);
                    },
                    Op::Add | Op::Subtract | Op::Multiply | Op::Divide => {
                        self.op_binary(op);
                    },
                    Op::Negate => {
                        self.op_negate();
                    },
                    Op::Return => {
                        let v = self.stack_pop();
                        return Ok(Some(v));
                    },
                },
            }
            ip = next_ip;
        }
        Ok(None)
    }
}

} // verus!
