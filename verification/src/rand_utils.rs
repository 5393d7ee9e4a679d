//! Random strings.
use vstd::prelude::*;
use vstd::string::StrSliceExecFns;
use vstd::string::StringExecFns;
use rand::Rng;

verus! {

/// The characters random strings are drawn from.
pub open spec fn charset() -> Seq<char> {
    "ABCDEFGHIJKLMNOPQRSTUVWXYZabcdefghijklmnopqrstuvwxyz0123456789)(*&^%$#@!~"@
}

/// Calls `rand::Rng::gen_range(0..bound)` on the thread's generator. The
/// value is random; the crate promises only that it lies in the range (and
/// panics on an empty range, which `requires` rules out).
#[verifier::external_body]
fn random_below(bound: usize) -> (r: usize)
    requires
        bound > 0,
    ensures
        r < bound,
{
    rand::thread_rng().gen_range(0..bound)
}

/// The string whose i-th character is the character of `charset()` at the
/// i-th of `draws`.
pub fn chars_from_draws(draws: &Vec<usize>) -> (r: String)
    requires
        forall|i: int| 0 <= i < draws@.len() ==> #[trigger] draws@[i] < charset().len(),
    ensures
        r@.len() == draws@.len(),
        forall|i: int| 0 <= i < draws@.len() ==> #[trigger] r@[i] == charset()[draws@[i] as int],
{
    let letters = "ABCDEFGHIJKLMNOPQRSTUVWXYZabcdefghijklmnopqrstuvwxyz0123456789)(*&^%$#@!~";
    proof {
        reveal_strlit("ABCDEFGHIJKLMNOPQRSTUVWXYZabcdefghijklmnopqrstuvwxyz0123456789)(*&^%$#@!~");
    }
    let mut out = String::new();
    let mut i: usize = 0;
    while i < draws.len()
        invariant
            letters@ == charset(),
            charset().len() == 73,
            i <= draws@.len(),
            forall|k: int| 0 <= k < draws@.len() ==> #[trigger] draws@[k] < charset().len(),
            out@.len() == i,
            forall|k: int| 0 <= k < i ==> #[trigger] out@[k] == charset()[draws@[k] as int],
        decreases draws@.len() - i,
    {
        let idx = draws[i];
        assert(draws@[i as int] < charset().len());
        let piece = letters.substring_char(idx, idx + 1);
        let ghost before = out@;
        out.append(piece);
        proof {
            assert forall|k: int| 0 <= k < i + 1 implies #[trigger] out@[k] == charset()[draws@[k] as int] by {
                if k < i {
                    assert(out@[k] == before[k]);
                }
            }
        }
        i = i + 1;
    }
    out
}

/// A random string of `length` characters: `length` positions are drawn
/// at random from `charset()`, and the string is their characters in order.
pub fn rand_s(length: usize) -> (r: String)
    ensures
        r@.len() == length,
        exists|draws: Seq<usize>|
            draws.len() == length && forall|i: int|
                0 <= i < length ==> #[trigger] draws[i] < charset().len() && r@[i] == charset()[draws[i] as int],
{
    proof {
        reveal_strlit("ABCDEFGHIJKLMNOPQRSTUVWXYZabcdefghijklmnopqrstuvwxyz0123456789)(*&^%$#@!~");
    }
    let n: usize = 73;
    assert(charset().len() == n);
    let mut draws: Vec<usize> = Vec::new();
    let mut i: usize = 0;
    while i < length
        invariant
            n == charset().len(),
            n == 73,
            i <= length,
            draws@.len() == i,
            forall|k: int| 0 <= k < i ==> #[trigger] draws@[k] < charset().len(),
        decreases length - i,
    {
        let idx = random_below(n);
        draws.push(idx);
        i = i + 1;
    }
    let r = chars_from_draws(&draws);
    assert(forall|i: int| 0 <= i < length ==> #[trigger] draws@[i] < charset().len() && r@[i] == charset()[draws@[i] as int]);
    r
}

} // verus!
