//! Column-level building blocks shared by the transform operators:
//! masked selection of rows and deep copies of columns, with the spec
//! functions and lemmas that describe them.

use vstd::prelude::*;

use crate::voxel_data::{ColumnValues, PayloadColumn, VoxelData};

verus! {

/// The subsequence of `s` at the positions where `keep` is true, in order.
pub open spec fn selected<A>(s: Seq<A>, keep: Seq<bool>) -> Seq<A>
    recommends
        keep.len() == s.len(),
    decreases s.len(),
{
    if s.len() == 0 {
        Seq::empty()
    } else if keep.len() == s.len() && keep.last() {
        selected(s.drop_last(), keep.drop_last()).push(s.last())
    } else {
        selected(s.drop_last(), keep.drop_last())
    }
}

/// A mask that keeps every row selects the whole column.
pub proof fn lemma_selected_all_true<A>(s: Seq<A>, keep: Seq<bool>)
    requires
        keep.len() == s.len(),
        forall|i: int| 0 <= i < keep.len() ==> keep[i],
    ensures
        selected(s, keep) == s,
    decreases s.len(),
{
    if s.len() == 0 {
        assert(selected(s, keep) =~= s);
    } else {
        lemma_selected_all_true(s.drop_last(), keep.drop_last());
        assert(selected(s, keep) =~= s);
    }
}

/// Two equally long columns keep equally many rows under one mask.
pub proof fn lemma_selected_len<A, B>(a: Seq<A>, b: Seq<B>, keep: Seq<bool>)
    requires
        keep.len() == a.len(),
        keep.len() == b.len(),
    ensures
        selected(a, keep).len() == selected(b, keep).len(),
        selected(a, keep).len() <= a.len(),
    decreases a.len(),
{
    if a.len() > 0 {
        lemma_selected_len(a.drop_last(), b.drop_last(), keep.drop_last());
    }
}

/// Every selected value comes from a kept position of the column.
pub proof fn lemma_selected_element<A>(s: Seq<A>, keep: Seq<bool>)
    requires
        keep.len() == s.len(),
    ensures
        selected(s, keep).len() <= s.len(),
        forall|k: int|
            0 <= k < selected(s, keep).len() ==> exists|i: int|
                0 <= i < s.len() && keep[i] && s[i] == #[trigger] selected(s, keep)[k],
    decreases s.len(),
{
    if s.len() == 0 {
    } else {
        let sub = s.drop_last();
        let ksub = keep.drop_last();
        lemma_selected_element(sub, ksub);
        assert forall|k: int| 0 <= k < selected(s, keep).len() implies exists|i: int|
            0 <= i < s.len() && keep[i] && s[i] == #[trigger] selected(s, keep)[k] by {
            if keep.last() && k == selected(s, keep).len() - 1 {
                assert(selected(s, keep) == selected(sub, ksub).push(s.last()));
                assert(0 <= s.len() - 1 < s.len() && keep[s.len() - 1] && s[s.len() - 1]
                    == selected(s, keep)[k]);
            } else {
                assert(k < selected(sub, ksub).len());
                let i = choose|i: int|
                    0 <= i < sub.len() && ksub[i] && sub[i] == selected(sub, ksub)[k];
                assert(0 <= i < s.len() && keep[i] && s[i] == selected(s, keep)[k]);
            }
        }
    }
}

/// Row-for-row copy of an integer column.
pub fn copy_i64_vec(v: &Vec<i64>) -> (r: Vec<i64>)
    ensures
        r@ == v@,
{
    let mut out: Vec<i64> = Vec::new();
    let mut i: usize = 0;
    while i < v.len()
        invariant
            i <= v@.len(),
            out@ == v@.take(i as int),
        decreases v@.len() - i,
    {
        out.push(v[i]);
        proof {
            assert(v@.take(i as int + 1) =~= v@.take(i as int).push(v@[i as int]));
        }
        i += 1;
    }
    proof {
        assert(v@.take(v@.len() as int) =~= v@);
    }
    out
}

/// Row-for-row copy of a list column.
pub fn copy_list_vec(v: &Vec<Vec<i64>>) -> (r: Vec<Vec<i64>>)
    ensures
        r@.map_values(|u: Vec<i64>| u@) == v@.map_values(|u: Vec<i64>| u@),
{
    let mut out: Vec<Vec<i64>> = Vec::new();
    let mut i: usize = 0;
    while i < v.len()
        invariant
            i <= v@.len(),
            out@.len() == i,
            forall|k: int| 0 <= k < i as int ==> (#[trigger] out@[k])@ == v@[k]@,
        decreases v@.len() - i,
    {
        out.push(copy_i64_vec(&v[i]));
        i += 1;
    }
    proof {
        assert(out@.map_values(|u: Vec<i64>| u@) =~= v@.map_values(|u: Vec<i64>| u@));
    }
    out
}

/// Copy of an optional count column.
pub fn copy_count(c: &Option<Vec<i64>>) -> (r: Option<Vec<i64>>)
    ensures
        (match r {
            Some(v) => match c {
                Some(w) => v@ == w@,
                None => false,
            },
            None => c is None,
        }),
{
    match c {
        Some(v) => Some(copy_i64_vec(v)),
        None => None,
    }
}

/// Copy of the payload columns, names and values alike.
pub fn copy_payload(p: &Vec<PayloadColumn>) -> (r: Vec<PayloadColumn>)
    ensures
        r@.map_values(|c: PayloadColumn| c@) == p@.map_values(|c: PayloadColumn| c@),
{
    let mut out: Vec<PayloadColumn> = Vec::new();
    let mut i: usize = 0;
    while i < p.len()
        invariant
            i <= p@.len(),
            out@.len() == i,
            forall|k: int| 0 <= k < i as int ==> (#[trigger] out@[k])@ == p@[k]@,
        decreases p@.len() - i,
    {
        let values = match &p[i].values {
            ColumnValues::Scalar(v) => ColumnValues::Scalar(copy_i64_vec(v)),
            ColumnValues::List(v) => ColumnValues::List(copy_list_vec(v)),
        };
        let col = PayloadColumn { name: p[i].name.clone(), values };
        proof {
            assert(col@ =~~= p@[i as int]@);
        }
        out.push(col);
        i += 1;
    }
    proof {
        assert(out@.map_values(|c: PayloadColumn| c@) =~= p@.map_values(|c: PayloadColumn| c@));
    }
    out
}

/// Deep copy of a whole voxel table.
pub fn copy_data(d: &VoxelData) -> (r: VoxelData)
    ensures
        r@ == d@,
{
    let r = VoxelData {
        x: copy_i64_vec(&d.x),
        y: copy_i64_vec(&d.y),
        z: copy_i64_vec(&d.z),
        count: copy_count(&d.count),
        payload: copy_payload(&d.payload),
    };
    proof {
        assert(r@ =~~= d@);
    }
    r
}

/// The rows of an integer column at the positions the mask keeps.
pub fn select_by_mask_i64(v: &Vec<i64>, mask: &Vec<bool>) -> (r: Vec<i64>)
    requires
        v@.len() == mask@.len(),
    ensures
        r@ == selected(v@, mask@),
{
    let mut out: Vec<i64> = Vec::new();
    let mut i: usize = 0;
    while i < v.len()
        invariant
            v@.len() == mask@.len(),
            i <= v@.len(),
            out@ == selected(v@.take(i as int), mask@.take(i as int)),
        decreases v@.len() - i,
    {
        proof {
            assert(v@.take(i as int + 1).drop_last() =~= v@.take(i as int));
            assert(mask@.take(i as int + 1).drop_last() =~= mask@.take(i as int));
        }
        if mask[i] {
            out.push(v[i]);
        }
        i += 1;
    }
    proof {
        assert(v@.take(v@.len() as int) =~= v@);
        assert(mask@.take(mask@.len() as int) =~= mask@);
    }
    out
}

/// The rows of a list column at the positions the mask keeps.
pub fn select_by_mask_list(v: &Vec<Vec<i64>>, mask: &Vec<bool>) -> (r: Vec<Vec<i64>>)
    requires
        v@.len() == mask@.len(),
    ensures
        r@.map_values(|u: Vec<i64>| u@) == selected(v@.map_values(|u: Vec<i64>| u@), mask@),
{
    let ghost vv = v@.map_values(|u: Vec<i64>| u@);
    let mut out: Vec<Vec<i64>> = Vec::new();
    let ghost mut outm = Seq::<Seq<i64>>::empty();
    let mut i: usize = 0;
    while i < v.len()
        invariant
            v@.len() == mask@.len(),
            i <= v@.len(),
            vv == v@.map_values(|u: Vec<i64>| u@),
            vv.len() == v@.len(),
            outm == selected(vv.take(i as int), mask@.take(i as int)),
            out@.len() == outm.len(),
            forall|k: int| 0 <= k < out@.len() ==> (#[trigger] out@[k])@ == outm[k],
        decreases v@.len() - i,
    {
        proof {
            assert(vv.take(i as int + 1).drop_last() =~= vv.take(i as int));
            assert(mask@.take(i as int + 1).drop_last() =~= mask@.take(i as int));
        }
        if mask[i] {
            let inner = copy_i64_vec(&v[i]);
            proof {
                assert(vv[i as int] == v@[i as int]@);
            }
            out.push(inner);
            proof {
                outm = outm.push(vv[i as int]);
            }
        }
        i += 1;
    }
    proof {
        assert(vv.take(v@.len() as int) =~= vv);
        assert(mask@.take(mask@.len() as int) =~= mask@);
        assert(out@.map_values(|u: Vec<i64>| u@) =~= outm);
    }
    out
}

} // verus!
