//! The dice built-in and the sources of its die faces.
use rand::Rng;
use vstd::prelude::*;

use crate::semantics::{after_draw, face, first_draw, roll_spec};
use crate::IntegerType;

verus! {

/// Relies on rand's `thread_rng` and `Rng::gen_range` on `1..=sides`: a value
/// from 1 to `sides`, both included (`gen_range` panics only on an empty
/// range, which `sides >= 1` rules out).
#[verifier::external_body]
fn random_face(sides: IntegerType) -> (r: IntegerType)
    requires
        sides >= 1,
    ensures
        1 <= r <= sides,
{
    rand::thread_rng().gen_range(1..=sides)
}

/// Where die faces come from: the thread's random generator, or a fixed
/// list of draws (a draw `d` shows face `1 + d % sides`; once the list is
/// used up every draw is 0).
pub struct Rolls {
    scripted: bool,
    draws: Vec<u64>,
    next: usize,
}

/// A list of draws as a stream.
pub open spec fn stream(draws: Seq<u64>) -> Seq<nat> {
    Seq::new(draws.len(), |i: int| draws[i] as nat)
}

impl Rolls {
    pub closed spec fn is_scripted(&self) -> bool {
        self.scripted
    }

    /// The draws not yet used, for a fixed list.
    pub closed spec fn remaining(&self) -> Seq<nat> {
        stream(self.draws@.skip(self.next as int))
    }

    pub closed spec fn wf(&self) -> bool {
        self.next <= self.draws@.len()
    }

    pub fn random() -> (r: Self)
        ensures
            r.wf(),
            !r.is_scripted(),
    {
        Rolls { scripted: false, draws: Vec::new(), next: 0 }
    }

    pub fn scripted(draws: Vec<u64>) -> (r: Self)
        ensures
            r.wf(),
            r.is_scripted(),
            r.remaining() == stream(draws@),
    {
        let r = Rolls { scripted: true, draws, next: 0 };
        assert(r.draws@.skip(0) =~= r.draws@);
        r
    }

    /// Rolls one die of `sides` sides; the ghost result is the draw that
    /// shows the face.
    pub fn draw(&mut self, sides: IntegerType) -> (r: (IntegerType, Ghost<nat>))
        requires
            old(self).wf(),
            sides >= 1,
        ensures
            final(self).wf(),
            final(self).is_scripted() == old(self).is_scripted(),
            1 <= r.0 <= sides,
            r.0 == face(r.1@, sides as int),
            old(self).is_scripted() ==> r.1@ == first_draw(old(self).remaining())
                && final(self).remaining() == after_draw(old(self).remaining()),
    {
        if self.scripted {
            let d: u64 = if self.next < self.draws.len() {
                self.draws[self.next]
            } else {
                0
            };
            let m = (d as u128 % sides as u128) as IntegerType;
            proof {
                if self.next < self.draws@.len() {
                    assert(self.draws@.skip(self.next + 1) =~= self.draws@.skip(
                        self.next as int,
                    ).drop_first());
                    assert(stream(self.draws@.skip(self.next + 1)) =~= stream(
                        self.draws@.skip(self.next as int),
                    ).drop_first());
                }
            }
            if self.next < self.draws.len() {
                self.next = self.next + 1;
            }
            (m + 1, Ghost(d as nat))
        } else {
            let v = random_face(sides);
            let ghost d = (v - 1) as nat;
            assert(((v - 1) as int) % (sides as int) == v - 1) by (nonlinear_arith)
                requires
                    0 <= v - 1 < sides,
            ;
            (v, Ghost(d))
        }
    }
}

/// The sum of `count` dice of `sides` sides; `Err` when the sum does not fit
/// in `IntegerType`.
pub fn roll(count: IntegerType, sides: IntegerType, rolls: &mut Rolls) -> (r: (
    Result<IntegerType, ()>,
    Ghost<Seq<nat>>,
))
    requires
        old(rolls).wf(),
        count >= 0,
        sides >= 1,
    ensures
        final(rolls).wf(),
        final(rolls).is_scripted() == old(rolls).is_scripted(),
        old(rolls).is_scripted() ==> roll_spec(count as int, sides as int, 0, old(rolls).remaining())
            == (int_result(r.0), final(rolls).remaining()),
        forall|rest: Seq<nat>|
            roll_spec(count as int, sides as int, 0, r.1@ + rest) == (int_result(r.0), rest),
{
    let mut acc: IntegerType = 0;
    let mut i: IntegerType = 0;
    let ghost mut used: Seq<nat> = Seq::empty();
    let ghost rem0 = rolls.remaining();
    assert forall|rest: Seq<nat>| used + rest == rest by {
        assert(used + rest =~= rest);
    }
    while i < count
        invariant
            rolls.wf(),
            rolls.is_scripted() == old(rolls).is_scripted(),
            rem0 == old(rolls).remaining(),
            0 <= i <= count,
            0 <= acc,
            1 <= sides,
            forall|rest: Seq<nat>|
                roll_spec(count as int, sides as int, 0, used + rest) == roll_spec(
                    count - i,
                    sides as int,
                    acc as int,
                    rest,
                ),
            rolls.is_scripted() ==> roll_spec(count as int, sides as int, 0, rem0) == roll_spec(
                count - i,
                sides as int,
                acc as int,
                rolls.remaining(),
            ),
        decreases count - i,
    {
        let ghost before = rolls.remaining();
        let (v, Ghost(d)) = rolls.draw(sides);
        let ghost used1 = used.push(d);
        assert forall|rest: Seq<nat>|
            roll_spec(count - i, sides as int, acc as int, seq![d] + rest) == (if acc + v
                > IntegerType::MAX {
                (Err(()), rest)
            } else {
                roll_spec(count - i - 1, sides as int, acc + v, rest)
            }) by {
            assert(first_draw(seq![d] + rest) == d);
            assert(after_draw(seq![d] + rest) =~= rest);
        }
        assert forall|rest: Seq<nat>| used1 + rest =~= used + (seq![d] + rest) by {}
        if acc > IntegerType::MAX - v {
            proof {
                used = used1;
            }
            return (Err(()), Ghost(used));
        }
        acc = acc + v;
        i = i + 1;
        proof {
            used = used1;
        }
    }
    assert forall|rest: Seq<nat>| roll_spec(0, sides as int, acc as int, rest) == (Ok::<int, ()>(acc as int), rest) by {}
    (Ok(acc), Ghost(used))
}

/// A result of the library's integer type, read as a mathematical integer.
pub open spec fn int_result(r: Result<IntegerType, ()>) -> Result<int, ()> {
    match r {
        Ok(v) => Ok(v as int),
        Err(_) => Err(()),
    }
}

} // verus!
