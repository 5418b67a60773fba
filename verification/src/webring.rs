//! The "Be crime do gay" webring: finding this site's neighbours.
use vstd::prelude::*;
use crate::text::str_eq;
use vstd::arithmetic::div_mod::{lemma_small_mod, lemma_mod_multiples_vanish};

verus! {

/// The place of the neighbour to the right in a ring of `n` sites.
pub open spec fn ring_next(n: int, i: int) -> int {
    (i + 1) % n
}

/// The place of the neighbour to the left in a ring of `n` sites.
pub open spec fn ring_prev(n: int, i: int) -> int {
    (i + n - 1) % n
}

proof fn lemma_ring_places(n: int, i: int)
    requires
        n >= 1,
        0 <= i < n,
    ensures
        ring_next(n, i) == if i + 1 == n { 0 } else { i + 1 },
        ring_prev(n, i) == if i == 0 { n - 1 } else { i - 1 },
{
    if i + 1 < n {
        lemma_small_mod((i + 1) as nat, n as nat);
    } else {
        lemma_mod_multiples_vanish(1, 0, n);
        lemma_small_mod(0, n as nat);
    }
    if i == 0 {
        lemma_small_mod((n - 1) as nat, n as nat);
    } else {
        lemma_mod_multiples_vanish(1, i - 1, n);
        lemma_small_mod((i - 1) as nat, n as nat);
    }
}

/// The list of addresses that a JSON text holds, or `None` when the text is
/// not a JSON array of strings, as `serde_json::from_str::<Vec<String>>`
/// reads it.
pub uninterp spec fn ring_json_list(json: Seq<char>) -> Option<Seq<Seq<char>>>;

/// Reads the webring's JSON list of addresses with `serde_json::from_str`.
/// Trusted: the result is named after the text, of which alone it depends;
/// a parse error is `None`.
#[verifier::external_body]
pub fn parse_ring(json: &str) -> (res: Option<Vec<String>>)
    ensures
        match (res, ring_json_list(json@)) {
            (Some(v), Some(l)) => v@.map_values(|s: String| s@) == l,
            (None, None) => true,
            _ => false,
        },
{
    serde_json::from_str::<Vec<String>>(json).ok()
}

/// The first place of `url` in the ring, as `Iterator::position` finds it.
pub fn ring_position(ring: &Vec<String>, url: &str) -> (res: Option<usize>)
    ensures
        match res {
            Some(i) => i < ring@.len() && ring@[i as int]@ == url@
                && forall|j: int| 0 <= j < i ==> ring@[j]@ != url@,
            None => forall|j: int| 0 <= j < ring@.len() ==> ring@[j]@ != url@,
        },
{
    let mut i: usize = 0;
    while i < ring.len()
        invariant
            i <= ring@.len(),
            forall|j: int| 0 <= j < i ==> ring@[j]@ != url@,
        decreases ring.len() - i,
    {
        if str_eq(ring[i].as_str(), url) {
            return Some(i);
        }
        i = i + 1;
    }
    None
}

/// The sites to the left and to the right of the site at `i`: the last
/// site is followed by the first.
pub fn ring_neighbours(ring: &Vec<String>, i: usize) -> (res: (String, String))
    requires
        ring@.len() >= 2,
        i < ring@.len(),
    ensures
        res.0@ == ring@[ring_prev(ring@.len() as int, i as int)]@,
        res.1@ == ring@[ring_next(ring@.len() as int, i as int)]@,
{
    let n = ring.len();
    let prev: &String;
    let next: &String;
    if i + 1 == n {
        next = &ring[0];
        prev = &ring[i - 1];
    } else if i == 0 {
        next = &ring[i + 1];
        prev = &ring[n - 1];
    } else {
        next = &ring[i + 1];
        prev = &ring[i - 1];
    }
    proof {
        lemma_ring_places(n as int, i as int);
    }
    (prev.clone(), next.clone())
}

/// Going one site to the right and then one to the left comes back, and
/// so does the reverse: in a ring of at least two sites the left and right
/// neighbours undo each other.
pub proof fn ring_steps_undo(n: int, i: int)
    requires
        n >= 2,
        0 <= i < n,
    ensures
        ring_prev(n, ring_next(n, i)) == i,
        ring_next(n, ring_prev(n, i)) == i,
        ring_next(n, i) != i,
        ring_prev(n, i) != i,
{
    lemma_ring_places(n, i);
    lemma_ring_places(n, ring_next(n, i));
    lemma_ring_places(n, ring_prev(n, i));
}

} // verus!
