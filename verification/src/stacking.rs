//! Stacks of words, and the values that are stored on them as one or more
//! words: the operand stack of a frame holds 32-bit words, and a `long` is
//! pushed as its high word, then its low word.
use vstd::prelude::*;

use crate::instruction::{hi_word, lo_word};

verus! {

/// A last-in, first-out stack of `T`.
pub trait Stack<T>: Sized {
    /// The items on the stack, the top last.
    spec fn items(&self) -> Seq<T>;

    /// Pushes one item.
    fn push_one(&mut self, value: T)
        ensures
            final(self).items() == old(self).items().push(value),
    ;

    /// Pops the top item, if there is one.
    fn pop_one(&mut self) -> (r: Option<T>)
        ensures
            old(self).items().len() == 0 ==> r is None && final(self).items() == old(self).items(),
            old(self).items().len() > 0 ==> r == Some(old(self).items().last())
                && final(self).items() == old(self).items().drop_last(),
    ;
}

/// Pushes a value as its words. (A free function: Verus does not accept the
/// two traits naming each other.)
pub fn pushd<T, S: Stack<T>, K: Stackable<T>>(stack: &mut S, value: K)
    ensures
        final(stack).items() == old(stack).items() + K::words(value),
{
    K::push(stack, value)
}

/// Pops a value from its words.
pub fn popd<T, S: Stack<T>, K: Stackable<T>>(stack: &mut S) -> (r: Option<K>)
    ensures
        (r, final(stack).items()) == K::popped(old(stack).items()),
{
    K::pop(stack)
}

impl<T> Stack<T> for Vec<T> {
    open spec fn items(&self) -> Seq<T> {
        self@
    }

    fn push_one(&mut self, value: T) {
        self.push(value);
    }

    fn pop_one(&mut self) -> (r: Option<T>) {
        self.pop()
    }
}

/// A value that is stored on a stack of `T` as a fixed sequence of items.
pub trait Stackable<T>: Sized {
    /// The items that stand for `value`, pushed first to last.
    spec fn words(value: Self) -> Seq<T>;

    /// What popping a value from a stack holding `items` gives back, and
    /// the items that are left.
    spec fn popped(items: Seq<T>) -> (Option<Self>, Seq<T>);

    /// Popping right after pushing gives back the value pushed and leaves
    /// the stack as it was.
    proof fn lemma_push_pop(items: Seq<T>, value: Self)
        ensures
            Self::popped(items + Self::words(value)) == (Some(value), items),
    ;

    /// Pushes `value` as its words.
    fn push<S: Stack<T>>(stack: &mut S, value: Self)
        ensures
            final(stack).items() == old(stack).items() + Self::words(value),
    ;

    /// Pops a value.
    fn pop<S: Stack<T>>(stack: &mut S) -> (r: Option<Self>)
        ensures
            (r, final(stack).items()) == Self::popped(old(stack).items()),
    ;
}

/// What popping one item from `items` gives back and leaves.
pub open spec fn pop_item<T>(items: Seq<T>) -> (Option<T>, Seq<T>) {
    if items.len() == 0 {
        (None, items)
    } else {
        (Some(items.last()), items.drop_last())
    }
}

impl<T> Stackable<T> for T {
    open spec fn words(value: T) -> Seq<T> {
        seq![value]
    }

    open spec fn popped(items: Seq<T>) -> (Option<T>, Seq<T>) {
        pop_item(items)
    }

    proof fn lemma_push_pop(items: Seq<T>, value: T) {
        assert((items + seq![value]).drop_last() =~= items);
    }

    fn push<S: Stack<T>>(stack: &mut S, value: T) {
        stack.push_one(value);
        assert(stack.items() =~= old(stack).items() + seq![value]);
    }

    fn pop<S: Stack<T>>(stack: &mut S) -> (r: Option<T>) {
        stack.pop_one()
    }
}

impl Stackable<u32> for i32 {
    open spec fn words(value: i32) -> Seq<u32> {
        seq![value as u32]
    }

    open spec fn popped(items: Seq<u32>) -> (Option<i32>, Seq<u32>) {
        if items.len() == 0 {
            (None, items)
        } else {
            (Some(items.last() as i32), items.drop_last())
        }
    }

    proof fn lemma_push_pop(items: Seq<u32>, value: i32) {
        assert((items + seq![value as u32]).drop_last() =~= items);
        assert((value as u32) as i32 == value) by (bit_vector);
    }

    fn push<S: Stack<u32>>(stack: &mut S, value: i32) {
        stack.push_one(value as u32);
        assert(stack.items() =~= old(stack).items() + seq![value as u32]);
    }

    fn pop<S: Stack<u32>>(stack: &mut S) -> (r: Option<i32>) {
        match stack.pop_one() {
            Some(i) => Some(i as i32),
            None => None,
        }
    }
}

/// The 64-bit value whose high word is `upper` and low word `lower`.
pub open spec fn join_words(upper: u32, lower: u32) -> u64 {
    (upper as u64 * 0x1_0000_0000 + lower as u64) as u64
}

/// The 64-bit value of two words, the high one first.
pub fn join(upper: u32, lower: u32) -> (r: u64)
    ensures
        r == join_words(upper, lower),
{
    upper as u64 * 0x1_0000_0000 + lower as u64
}

/// What popping a 64-bit value from `items` gives back and leaves: the low
/// word comes off first. With a single item on the stack, that item is
/// still taken.
pub open spec fn pop_long(items: Seq<u32>) -> (Option<u64>, Seq<u32>) {
    if items.len() == 0 {
        (None, items)
    } else if items.len() == 1 {
        (None, items.drop_last())
    } else {
        (
            Some(join_words(items.drop_last().last(), items.last())),
            items.drop_last().drop_last(),
        )
    }
}

/// A 64-bit value is its high word times 2^32 plus its low word.
pub proof fn lemma_join_split(value: u64)
    ensures
        join_words(hi_word(value), lo_word(value)) == value,
{
}

impl Stackable<u32> for u64 {
    open spec fn words(value: u64) -> Seq<u32> {
        seq![hi_word(value), lo_word(value)]
    }

    open spec fn popped(items: Seq<u32>) -> (Option<u64>, Seq<u32>) {
        pop_long(items)
    }

    proof fn lemma_push_pop(items: Seq<u32>, value: u64) {
        let s = items + seq![hi_word(value), lo_word(value)];
        assert(s.drop_last().drop_last() =~= items);
        assert(s.last() == lo_word(value));
        assert(s.drop_last().last() == hi_word(value));
        lemma_join_split(value);
    }

    fn push<S: Stack<u32>>(stack: &mut S, value: u64) {
        let lower = (value % 0x1_0000_0000) as u32;
        let upper = (value / 0x1_0000_0000) as u32;
        stack.push_one(upper);
        stack.push_one(lower);
        assert(stack.items() =~= old(stack).items() + seq![hi_word(value), lo_word(value)]);
    }

    fn pop<S: Stack<u32>>(stack: &mut S) -> (r: Option<u64>) {
        let lower = match stack.pop_one() {
            Some(w) => w,
            None => {
                return None;
            },
        };
        let upper = match stack.pop_one() {
            Some(w) => w,
            None => {
                return None;
            },
        };
        Some(upper as u64 * 0x1_0000_0000 + lower as u64)
    }
}

impl Stackable<u32> for i64 {
    open spec fn words(value: i64) -> Seq<u32> {
        seq![hi_word(value as u64), lo_word(value as u64)]
    }

    open spec fn popped(items: Seq<u32>) -> (Option<i64>, Seq<u32>) {
        match pop_long(items) {
            (Some(v), rest) => (Some(v as i64), rest),
            (None, rest) => (None, rest),
        }
    }

    proof fn lemma_push_pop(items: Seq<u32>, value: i64) {
        <u64 as Stackable<u32>>::lemma_push_pop(items, value as u64);
        assert((value as u64) as i64 == value) by (bit_vector);
    }

    fn push<S: Stack<u32>>(stack: &mut S, value: i64) {
        <u64 as Stackable<u32>>::push(stack, value as u64);
    }

    fn pop<S: Stack<u32>>(stack: &mut S) -> (r: Option<i64>) {
        match <u64 as Stackable<u32>>::pop(stack) {
            Some(v) => Some(v as i64),
            None => None,
        }
    }
}

} // verus!
