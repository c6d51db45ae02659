use vstd::prelude::*;

verus! {

/// The path separator, '/'.
pub const SEPARATOR: u8 = 47;

/// Count of leading non-separator bytes: the length of the first
/// component of `p`.
pub open spec fn component_len(p: Seq<u8>) -> int
    decreases p.len(),
{
    if p.len() == 0 || p[0] == SEPARATOR {
        0
    } else {
        1 + component_len(p.drop_first())
    }
}

pub proof fn lemma_component_len_bounds(p: Seq<u8>)
    ensures
        0 <= component_len(p) <= p.len(),
        p.len() > 0 && p[0] != SEPARATOR ==> component_len(p) >= 1,
    decreases p.len(),
{
    if p.len() == 0 || p[0] == SEPARATOR {
    } else {
        lemma_component_len_bounds(p.drop_first());
    }
}

/// The '/'-delimited components of a path, empty components dropped, in
/// order.
pub open spec fn components_of(p: Seq<u8>) -> Seq<Seq<u8>>
    decreases p.len(),
    via components_of_decreases
{
    if p.len() == 0 {
        Seq::empty()
    } else if p[0] == SEPARATOR {
        components_of(p.drop_first())
    } else {
        seq![p.take(component_len(p))] + components_of(p.skip(component_len(p)))
    }
}

#[via_fn]
proof fn components_of_decreases(p: Seq<u8>) {
    if p.len() != 0 && p[0] != SEPARATOR {
        lemma_component_len_bounds(p);
    }
}

/// The first component of `q` runs exactly to index `k` (all earlier
/// bytes are non-separators and `k` is the end or a separator), so the
/// components of `q` are that prefix followed by the components of the
/// rest.
pub proof fn lemma_components_step(q: Seq<u8>, k: int)
    requires
        1 <= k <= q.len(),
        forall|j: int| 0 <= j < k ==> q[j] != SEPARATOR,
        k == q.len() || q[k] == SEPARATOR,
    ensures
        component_len(q) == k,
        components_of(q) == seq![q.take(k)] + components_of(q.skip(k)),
    decreases k,
{
    if k == 1 {
        assert(q[0] != SEPARATOR);
        assert(q.drop_first().len() == 0 || q.drop_first()[0] == SEPARATOR);
        assert(component_len(q) == 1);
    } else {
        lemma_components_step(q.drop_first(), k - 1);
        assert(component_len(q) == 1 + component_len(q.drop_first()));
    }
}

/// Split a path into its '/'-delimited components, dropping empty ones.
pub fn split_path(p: &Vec<u8>) -> (r: Vec<Vec<u8>>)
    ensures
        r@.map_values(|c: Vec<u8>| c@) == components_of(p@),
{
    let n = p.len();
    let mut comps: Vec<Vec<u8>> = Vec::new();
    let mut cur: Vec<u8> = Vec::new();
    let mut i: usize = 0;
    let ghost mut start: int = 0;
    proof {
        assert(comps@.map_values(|c: Vec<u8>| c@) =~= Seq::<Seq<u8>>::empty());
        assert(cur@ =~= p@.subrange(start, i as int));
        assert(p@.skip(0) =~= p@);
    }
    while i < n
        invariant
            n == p@.len(),
            start == i - cur@.len(),
            0 <= start <= i <= n,
            cur@ == p@.subrange(start, i as int),
            forall|j: int| start <= j < i ==> p@[j] != SEPARATOR,
            components_of(p@) == comps@.map_values(|c: Vec<u8>| c@) + components_of(
                p@.skip(start),
            ),
        decreases n - i,
    {
        let c = p[i];
        if c == SEPARATOR {
            if cur.len() > 0 {
                let ghost q = p@.skip(start);
                let ghost k = cur@.len() as int;
                proof {
                    assert(q[k] == p@[i as int] && q[k] == SEPARATOR);
                    assert forall|j: int| 0 <= j < k implies q[j] != SEPARATOR by {
                        assert(q[j] == p@[start + j]);
                    }
                    lemma_components_step(q, k);
                    assert(q.take(k) =~= cur@);
                    assert(q.skip(k) =~= p@.skip(i as int));
                    assert(p@.skip(i as int).drop_first() =~= p@.skip(i + 1));
                    assert(components_of(p@.skip(i as int)) == components_of(p@.skip(i + 1)));
                }
                let ghost prev = comps@.map_values(|c2: Vec<u8>| c2@);
                let ghost cv = cur@;
                comps.push(cur);
                proof {
                    assert(comps@.map_values(|c2: Vec<u8>| c2@) =~= prev + seq![cv]);
                    assert((prev + seq![cv]) + components_of(p@.skip(i + 1)) =~= prev + (seq![cv]
                        + components_of(p@.skip(i + 1))));
                }
                cur = Vec::new();
            } else {
                proof {
                    assert(p@.skip(start)[0] == p@[i as int] && p@[i as int] == SEPARATOR);
                    assert(p@.skip(start).drop_first() =~= p@.skip(i + 1));
                }
            }
            i = i + 1;
            proof {
                start = i as int;
                assert(cur@ =~= p@.subrange(start, i as int));
            }
        } else {
            cur.push(c);
            i = i + 1;
            proof {
                assert(cur@ =~= p@.subrange(start, i as int));
            }
        }
    }
    if cur.len() > 0 {
        let ghost q = p@.skip(start);
        let ghost k = cur@.len() as int;
        proof {
            assert(k == q.len());
            assert forall|j: int| 0 <= j < k implies q[j] != SEPARATOR by {
                assert(q[j] == p@[start + j]);
            }
            lemma_components_step(q, k);
            assert(q.take(k) =~= cur@);
            assert(q.skip(k) =~= Seq::<u8>::empty());
            assert(components_of(q.skip(k)) =~= Seq::<Seq<u8>>::empty());
        }
        let ghost prev = comps@.map_values(|c2: Vec<u8>| c2@);
        let ghost cv = cur@;
        comps.push(cur);
        proof {
            assert(comps@.map_values(|c2: Vec<u8>| c2@) =~= prev + seq![cv]);
            assert(prev + (seq![cv] + Seq::<Seq<u8>>::empty()) =~= prev + seq![cv]);
        }
    } else {
        proof {
            assert(p@.skip(start) =~= Seq::<u8>::empty());
            assert(components_of(p@.skip(start)) =~= Seq::<Seq<u8>>::empty());
            assert(comps@.map_values(|c2: Vec<u8>| c2@) + Seq::<Seq<u8>>::empty()
                =~= comps@.map_values(|c2: Vec<u8>| c2@));
        }
    }
    comps
}

} // verus!
