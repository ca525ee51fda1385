use vstd::prelude::*;
use vstd::pervasive::VecAdditionalExecFns;

use crate::error::ExtractionError;

verus! {

/// One atomic transform step of a signature cipher.
#[derive(Debug, Clone, Copy, PartialEq, Eq, Structural)]
pub enum CipherOperation {
    /// Reverse the whole character sequence.
    Reverse,
    /// Exchange the first character with the one at `operand % length`.
    Swap(usize),
    /// Remove the first `operand` characters.
    Splice(usize),
}

/// What one operation does to a character sequence. `None` when the
/// operation is inapplicable: a swap on an empty sequence (the modulo
/// rule has no meaning there) or a splice past the end.
pub open spec fn apply_operation(op: CipherOperation, s: Seq<char>) -> Option<Seq<char>> {
    match op {
        CipherOperation::Reverse => Some(s.reverse()),
        CipherOperation::Swap(i) => if s.len() == 0 {
            None
        } else {
            let j = (i as int) % (s.len() as int);
            Some(s.update(0, s[j]).update(j, s[0]))
        },
        CipherOperation::Splice(i) => if i <= s.len() {
            Some(s.skip(i as int))
        } else {
            None
        },
    }
}

/// What a whole program does: its operations applied in order, failing
/// as soon as one step is inapplicable.
pub open spec fn apply_program(ops: Seq<CipherOperation>, s: Seq<char>) -> Option<Seq<char>>
    decreases ops.len(),
{
    if ops.len() == 0 {
        Some(s)
    } else {
        match apply_operation(ops[0], s) {
            Some(t) => apply_program(ops.skip(1), t),
            None => None,
        }
    }
}

/// Idempotent replay: the outcome of a replay is a function of the
/// program and the input signature alone, so replaying the same
/// program on the same signature always yields the same result.
pub proof fn lemma_replay_idempotent(
    ops: Seq<CipherOperation>,
    s: Seq<char>,
    r1: Option<Seq<char>>,
    r2: Option<Seq<char>>,
)
    requires
        r1 == apply_program(ops, s),
        r2 == apply_program(ops, s),
    ensures
        r1 == r2,
{
}

/// Unfolds one step of `apply_program` at position `idx`.
proof fn lemma_apply_program_step(ops: Seq<CipherOperation>, idx: int, s: Seq<char>)
    requires
        0 <= idx < ops.len(),
    ensures
        apply_program(ops.skip(idx), s) == match apply_operation(ops[idx], s) {
            Some(t) => apply_program(ops.skip(idx + 1), t),
            None => None::<Seq<char>>,
        },
{
    let tail = ops.skip(idx);
    assert(tail[0] == ops[idx]);
    assert(tail.skip(1) =~= ops.skip(idx + 1));
}

/// Ordered sequence of cipher operations that transforms a raw
/// signature into its real form. Derived at most once per player
/// reference and replayed against each signature.
#[derive(Debug, Clone)]
pub struct DecipherProgram {
    pub ops: Vec<CipherOperation>,
}

impl View for DecipherProgram {
    type V = Seq<CipherOperation>;

    open spec fn view(&self) -> Seq<CipherOperation> {
        self.ops@
    }
}

impl DecipherProgram {
    /// Wrap an operation list as a replayable program.
    pub fn from_ops(ops: Vec<CipherOperation>) -> (r: DecipherProgram)
        ensures
            r@ == ops@,
    {
        DecipherProgram { ops }
    }

    /// Replay the program against a signature, character by character.
    /// Fails with `CipherReplayError` exactly when some step is
    /// inapplicable to the sequence it meets.
    pub fn run(&self, signature: &str) -> (r: Result<String, ExtractionError>)
        ensures
            match r {
                Ok(out) => apply_program(self@, signature@) == Some(out@),
                Err(e) => apply_program(self@, signature@) is None && e is CipherReplayError,
            },
    {
        let mut chars = str_to_chars(signature);
        let n = self.ops.len();
        let mut idx: usize = 0;
        assert(self@.skip(0) =~= self@);
        while idx < n
            invariant
                n == self@.len(),
                0 <= idx <= n,
                apply_program(self@, signature@) == apply_program(
                    self@.skip(idx as int),
                    chars@,
                ),
            decreases n - idx,
        {
            proof {
                lemma_apply_program_step(self@, idx as int, chars@);
            }
            let op = self.ops[idx];
            match op {
                CipherOperation::Reverse => {
                    reverse_chars(&mut chars);
                },
                CipherOperation::Swap(i) => {
                    if chars.len() == 0 {
                        return Err(ExtractionError::CipherReplayError);
                    }
                    let j = i % chars.len();
                    let first = chars[0];
                    let other = chars[j];
                    chars.set(0, other);
                    chars.set(j, first);
                },
                CipherOperation::Splice(i) => {
                    if i > chars.len() {
                        return Err(ExtractionError::CipherReplayError);
                    }
                    chars = drop_prefix(chars, i);
                },
            }
            idx = idx + 1;
        }
        assert(self@.skip(idx as int) =~= Seq::<CipherOperation>::empty());
        Ok(chars_to_string(&chars))
    }
}

/// Collects the characters of a string slice into a vector.
pub fn str_to_chars(s: &str) -> (r: Vec<char>)
    ensures
        r@ == s@,
{
    let n = s.unicode_len();
    let mut r: Vec<char> = Vec::new();
    let mut i: usize = 0;
    while i < n
        invariant
            n == s@.len(),
            0 <= i <= n,
            r@ == s@.take(i as int),
        decreases n - i,
    {
        let c = s.get_char(i);
        r.push(c);
        assert(r@ =~= s@.take(i as int + 1));
        i = i + 1;
    }
    assert(r@ =~= s@);
    r
}

/// Relies on `String`'s `FromIterator` impl: collecting a sequence of
/// characters yields the string of exactly those characters in order.
#[verifier::external_body]
pub fn chars_to_string(v: &Vec<char>) -> (r: String)
    ensures
        r@ == v@,
{
    v.iter().collect()
}

/// Reverses a character vector.
fn reverse_chars(v: &mut Vec<char>)
    ensures
        final(v)@ == old(v)@.reverse(),
{
    let n = v.len();
    let mut r: Vec<char> = Vec::new();
    let mut i: usize = 0;
    while i < n
        invariant
            n == old(v)@.len(),
            v@ == old(v)@,
            0 <= i <= n,
            r@.len() == i,
            forall|k: int| 0 <= k < i ==> r@[k] == old(v)@[n - 1 - k],
        decreases n - i,
    {
        let c = v[n - 1 - i];
        r.push(c);
        i = i + 1;
    }
    *v = r;
    assert(v@ =~= old(v)@.reverse());
}

/// Returns the vector without its first `k` elements.
fn drop_prefix(v: Vec<char>, k: usize) -> (r: Vec<char>)
    requires
        k <= v@.len(),
    ensures
        r@ == v@.skip(k as int),
{
    let n = v.len();
    let mut r: Vec<char> = Vec::new();
    let mut i: usize = k;
    while i < n
        invariant
            n == v@.len(),
            k <= i <= n,
            r@ == v@.subrange(k as int, i as int),
        decreases n - i,
    {
        let c = v[i];
        r.push(c);
        assert(r@ =~= v@.subrange(k as int, i as int + 1));
        i = i + 1;
    }
    assert(r@ =~= v@.skip(k as int));
    r
}

} // verus!
