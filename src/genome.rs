use vstd::prelude::*;
use crate::random::random_byte;

verus! {

/// Fixed-length byte string with the number of generations since its
/// random ancestor.
#[derive(Debug, Clone)]
pub struct Genome {
    pub genes: Vec<u8>,
    pub generation: u64,
}

/// Whether two genes are within 10 of each other.
pub open spec fn genes_close(a: u8, b: u8) -> bool {
    -10 < a - b < 10
}

/// Number of positions below `n` at which the two gene strings are close.
pub open spec fn close_count(a: Seq<u8>, b: Seq<u8>, n: int) -> nat
    decreases n,
{
    if n <= 0 {
        0
    } else {
        close_count(a, b, n - 1) + if genes_close(a[n - 1], b[n - 1]) { 1nat } else { 0nat }
    }
}

/// Whether stored weight arrays fit a network of the given shape: the
/// input-to-hidden array holds hidden * inputs weights and the
/// hidden-to-output array holds outputs * hidden weights.
pub fn network_shape_ok(
    input_size: usize,
    hidden_size: usize,
    output_size: usize,
    weights_ih_len: usize,
    weights_ho_len: usize,
) -> (r: bool)
    ensures
        r == (weights_ih_len == hidden_size * input_size && weights_ho_len == output_size * hidden_size),
{
    let ih_ok = match hidden_size.checked_mul(input_size) {
        Some(n) => n == weights_ih_len,
        None => false,
    };
    let ho_ok = match output_size.checked_mul(hidden_size) {
        Some(n) => n == weights_ho_len,
        None => false,
    };
    ih_ok && ho_ok
}

impl Genome {
    /// A fresh genome of `size` random bytes, generation zero.
    pub fn random(size: usize) -> (r: Genome)
        ensures
            r.genes@.len() == size,
            r.generation == 0,
    {
        let mut genes: Vec<u8> = Vec::new();
        while genes.len() < size
            invariant
                genes.len() <= size,
            decreases size - genes.len(),
        {
            genes.push(random_byte());
        }
        Genome { genes, generation: 0 }
    }

    /// Number of positions whose bytes differ by less than 10, or None when
    /// the lengths differ.
    pub fn matching_genes(&self, other: &Genome) -> (r: Option<usize>)
        ensures
            r is None <==> self.genes@.len() != other.genes@.len(),
            r is Some ==> r.unwrap() == close_count(self.genes@, other.genes@, self.genes@.len() as int),
    {
        if self.genes.len() != other.genes.len() {
            return None;
        }
        let mut count: usize = 0;
        let mut i: usize = 0;
        while i < self.genes.len()
            invariant
                i <= self.genes@.len(),
                self.genes@.len() == other.genes@.len(),
                count == close_count(self.genes@, other.genes@, i as int),
                count <= i,
            decreases self.genes@.len() - i,
        {
            let a = self.genes[i];
            let b = other.genes[i];
            let diff: u8 = if a >= b { a - b } else { b - a };
            if diff < 10 {
                count = count + 1;
            }
            i = i + 1;
        }
        Some(count)
    }

    /// The genes read in order for `count` network weights, wrapping around
    /// to the first gene when the genome is exhausted; empty for an empty genome.
    pub fn weight_bytes(&self, count: usize) -> (r: Vec<u8>)
        ensures
            self.genes@.len() == 0 ==> r@.len() == 0,
            self.genes@.len() > 0 ==> r@.len() == count,
            forall|k: int| 0 <= k < r@.len() ==> #[trigger] r@[k] == self.genes@[k % self.genes@.len() as int],
    {
        let mut out: Vec<u8> = Vec::new();
        let n = self.genes.len();
        if n == 0 {
            return out;
        }
        let mut cursor: usize = 0;
        let mut k: usize = 0;
        let ghost mut laps: int = 0;
        while k < count
            invariant
                n == self.genes@.len(),
                n > 0,
                k <= count,
                out@.len() == k,
                0 <= cursor < n,
                laps >= 0,
                k == laps * n + cursor,
                forall|j: int| 0 <= j < k ==> #[trigger] out@[j] == self.genes@[j % n as int],
            decreases count - k,
        {
            proof {
                vstd::arithmetic::div_mod::lemma_fundamental_div_mod_converse_mod(k as int, n as int, laps, cursor as int);
            }
            out.push(self.genes[cursor]);
            if cursor + 1 >= n {
                cursor = 0;
                proof {
                    laps = laps + 1;
                    assert(k + 1 == laps * n) by (nonlinear_arith)
                        requires k == (laps - 1) * n + (n - 1);
                }
            } else {
                cursor = cursor + 1;
            }
            k = k + 1;
        }
        out
    }
}

} // verus!
