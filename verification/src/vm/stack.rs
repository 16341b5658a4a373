use vstd::prelude::*;
use crate::bytecode::value::{group_value_views, views_of, Value, ValueView};

verus! {

broadcast use {vstd::std_specs::vec::group_vec_axioms, group_value_views};

/// Stack-related errors.
#[derive(Debug, Clone, PartialEq)]
pub enum StackError {
    /// The stack already holds as many values as it may.
    Overflow,
    /// The stack holds fewer values than the operation takes.
    Underflow,
    /// No value lies at the given depth.
    InvalidAccess { index: usize },
}

/// The maximum stack depth.
pub const MAX_STACK_DEPTH: usize = 65536;

/// The operand stack: a bounded last-in, first-out store of values.
#[derive(Debug)]
pub struct Stack {
    values: Vec<Value>,
    max_depth: usize,
}

impl View for Stack {
    type V = Seq<ValueView>;

    /// The values on the stack, oldest first.
    closed spec fn view(&self) -> Seq<ValueView> {
        views_of(self.values@)
    }
}

impl Stack {
    /// The largest number of values that the stack may hold.
    pub closed spec fn limit(&self) -> nat {
        self.max_depth as nat
    }

    /// Create a new empty stack.
    pub fn new() -> (r: Self)
        ensures
            r@.len() == 0,
            r.limit() == MAX_STACK_DEPTH,
    {
        Self::with_capacity(256)
    }

    /// Create a stack with pre-allocated capacity.
    pub fn with_capacity(capacity: usize) -> (r: Self)
        ensures
            r@.len() == 0,
            r.limit() == MAX_STACK_DEPTH,
    {
        Self { values: Vec::with_capacity(capacity), max_depth: MAX_STACK_DEPTH }
    }

    /// Push a value onto the stack.
    pub fn push(&mut self, value: Value) -> (r: Result<(), StackError>)
        ensures
            final(self).limit() == old(self).limit(),
            old(self)@.len() < old(self).limit() ==> r is Ok && final(self)@ == old(self)@.push(
                value@,
            ),
            old(self)@.len() >= old(self).limit() ==> r == Err::<(), StackError>(
                StackError::Overflow,
            ) && final(self)@ == old(self)@,
    {
        if self.values.len() >= self.max_depth {
            return Err(StackError::Overflow);
        }
        self.values.push(value);
        proof {
            assert(final(self)@ =~= old(self)@.push(value@));
        }
        Ok(())
    }

    /// Pop a value from the stack.
    pub fn pop(&mut self) -> (r: Result<Value, StackError>)
        ensures
            final(self).limit() == old(self).limit(),
            old(self)@.len() > 0 ==> (r matches Ok(v) && v@ == old(self)@.last() && final(self)@
                == old(self)@.drop_last()),
            old(self)@.len() == 0 ==> r == Err::<Value, StackError>(StackError::Underflow)
                && final(self)@ == old(self)@,
    {
        match self.values.pop() {
            Some(v) => {
                proof {
                    assert(final(self)@ =~= old(self)@.drop_last());
                }
                Ok(v)
            },
            None => Err(StackError::Underflow),
        }
    }

    /// Peek at the top value without removing it.
    pub fn peek(&self) -> (r: Result<&Value, StackError>)
        ensures
            self@.len() > 0 ==> (r matches Ok(v) && v@ == self@.last()),
            self@.len() == 0 ==> r == Err::<&Value, StackError>(StackError::Underflow),
    {
        let n = self.values.len();
        if n == 0 {
            Err(StackError::Underflow)
        } else {
            Ok(&self.values[n - 1])
        }
    }

    /// Peek at a value at a specific depth (0 = top).
    pub fn peek_at(&self, depth: usize) -> (r: Result<&Value, StackError>)
        ensures
            depth < self@.len() ==> (r matches Ok(v) && v@ == self@[self@.len() - 1 - depth]),
            depth >= self@.len() ==> r == Err::<&Value, StackError>(
                StackError::InvalidAccess { index: depth },
            ),
    {
        if depth >= self.values.len() {
            return Err(StackError::InvalidAccess { index: depth });
        }
        Ok(&self.values[self.values.len() - 1 - depth])
    }

    /// Get a mutable reference to the top value.
    pub fn peek_mut(&mut self) -> (r: Result<&mut Value, StackError>)
        ensures
            final(self).limit() == old(self).limit(),
            old(self)@.len() == 0 ==> r is Err && final(self)@ == old(self)@,
            old(self)@.len() > 0 ==> (r matches Ok(v) && v@ == old(self)@.last() && final(self)@
                == old(self)@.drop_last().push(final(v)@)),
    {
        let n = self.values.len();
        if n == 0 {
            Err(StackError::Underflow)
        } else {
            Ok(&mut self.values[n - 1])
        }
    }

    /// Duplicate the top value.
    pub fn dup(&mut self) -> (r: Result<(), StackError>)
        ensures
            final(self).limit() == old(self).limit(),
            old(self)@.len() == 0 ==> r == Err::<(), StackError>(StackError::Underflow)
                && final(self)@ == old(self)@,
            0 < old(self)@.len() < old(self).limit() ==> r is Ok && final(self)@ == old(self)@.push(old(self)@.last()),
            0 < old(self)@.len() && old(self)@.len() >= old(self).limit() ==> r == Err::<
                (),
                StackError,
            >(StackError::Overflow) && final(self)@ == old(self)@,
    {
        let n = self.values.len();
        if n == 0 {
            return Err(StackError::Underflow);
        }
        let value = self.values[n - 1].clone();
        self.push(value)
    }

    /// Swap the top two values.
    pub fn swap(&mut self) -> (r: Result<(), StackError>)
        ensures
            final(self).limit() == old(self).limit(),
            old(self)@.len() < 2 ==> r == Err::<(), StackError>(StackError::Underflow)
                && final(self)@ == old(self)@,
            old(self)@.len() >= 2 ==> r is Ok && final(self)@ == old(self)@.take(
                old(self)@.len() - 2,
            ).push(old(self)@.last()).push(old(self)@[old(self)@.len() - 2]),
    {
        let len = self.values.len();
        if len < 2 {
            return Err(StackError::Underflow);
        }
        let top = self.values.pop().unwrap();
        let below = self.values.pop().unwrap();
        self.values.push(top);
        self.values.push(below);
        proof {
            assert(final(self)@ =~= old(self)@.take(old(self)@.len() - 2).push(
                old(self)@.last(),
            ).push(old(self)@[old(self)@.len() - 2]));
        }
        Ok(())
    }

    /// Rotate the top three values (a b c -> c a b).
    pub fn rotate(&mut self) -> (r: Result<(), StackError>)
        ensures
            final(self).limit() == old(self).limit(),
            old(self)@.len() < 3 ==> r == Err::<(), StackError>(StackError::Underflow)
                && final(self)@ == old(self)@,
            old(self)@.len() >= 3 ==> r is Ok && final(self)@ == old(self)@.take(
                old(self)@.len() - 3,
            ).push(old(self)@.last()).push(old(self)@[old(self)@.len() - 3]).push(
                old(self)@[old(self)@.len() - 2],
            ),
    {
        let len = self.values.len();
        if len < 3 {
            return Err(StackError::Underflow);
        }
        let c = self.values.remove(len - 1);
        self.values.insert(len - 3, c);
        proof {
            assert(final(self)@ =~= old(self)@.take(old(self)@.len() - 3).push(
                old(self)@.last(),
            ).push(old(self)@[old(self)@.len() - 3]).push(old(self)@[old(self)@.len() - 2]));
        }
        Ok(())
    }

    /// Get the current stack depth.
    pub fn len(&self) -> (n: usize)
        ensures
            n == self@.len(),
    {
        self.values.len()
    }

    /// Check if stack is empty.
    pub fn is_empty(&self) -> (b: bool)
        ensures
            b == (self@.len() == 0),
    {
        self.values.len() == 0
    }

    /// Clear the stack.
    pub fn clear(&mut self)
        ensures
            final(self)@.len() == 0,
            final(self).limit() == old(self).limit(),
    {
        self.values.clear();
    }

    /// Get all values, oldest first.
    pub fn values(&self) -> (r: &Vec<Value>)
        ensures
            views_of(r@) == self@,
    {
        &self.values
    }

    /// Pop n values from the stack; they are returned oldest first.
    pub fn pop_n(&mut self, n: usize) -> (r: Result<Vec<Value>, StackError>)
        ensures
            final(self).limit() == old(self).limit(),
            n <= old(self)@.len() ==> (r matches Ok(popped) && views_of(popped@) == old(self)@.skip(old(self)@.len() - n) && final(self)@ == old(self)@.take(
                old(self)@.len() - n,
            )),
            n > old(self)@.len() ==> r == Err::<Vec<Value>, StackError>(StackError::Underflow)
                && final(self)@ == old(self)@,
    {
        let len = self.values.len();
        if n > len {
            return Err(StackError::Underflow);
        }
        let result = self.values.split_off(len - n);
        proof {
            assert(views_of(result@) =~= old(self)@.skip(old(self)@.len() - n));
            assert(final(self)@ =~= old(self)@.take(old(self)@.len() - n));
        }
        Ok(result)
    }

    /// Shrink the stack to `depth` values; a stack that holds no more is left
    /// as it is.
    pub fn truncate(&mut self, depth: usize)
        ensures
            final(self).limit() == old(self).limit(),
            depth < old(self)@.len() ==> final(self)@ == old(self)@.take(depth as int),
            depth >= old(self)@.len() ==> final(self)@ == old(self)@,
    {
        if depth < self.values.len() {
            self.values.truncate(depth);
            proof {
                assert(final(self)@ =~= old(self)@.take(depth as int));
            }
        }
    }

    /// Replace the value at a given depth (0 = top).
    pub fn set_at(&mut self, depth: usize, value: Value) -> (r: Result<(), StackError>)
        ensures
            final(self).limit() == old(self).limit(),
            depth < old(self)@.len() ==> r is Ok && final(self)@ == old(self)@.update(
                old(self)@.len() - 1 - depth,
                value@,
            ),
            depth >= old(self)@.len() ==> r == Err::<(), StackError>(
                StackError::InvalidAccess { index: depth },
            ) && final(self)@ == old(self)@,
    {
        if depth >= self.values.len() {
            return Err(StackError::InvalidAccess { index: depth });
        }
        let idx = self.values.len() - 1 - depth;
        self.values[idx] = value;
        proof {
            assert(final(self)@ =~= old(self)@.update(old(self)@.len() - 1 - depth, value@));
        }
        Ok(())
    }
}

impl Default for Stack {
    fn default() -> (r: Self)
        ensures
            r@.len() == 0,
            r.limit() == MAX_STACK_DEPTH,
    {
        Self::new()
    }
}

} // verus!
