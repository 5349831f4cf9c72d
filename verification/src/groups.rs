//! Multicast groups as the bits of a number.

use vstd::prelude::*;

verus! {

/// Whether every group has a bit: they are numbered from 1 to 32.
pub open spec fn groups_valid(groups: Seq<u32>) -> bool {
    forall|i: int| 0 <= i < groups.len() ==> 1 <= #[trigger] groups[i] <= 32
}

/// Whether bit `i` of `mask` is set.
pub open spec fn has_bit(mask: u32, i: u32) -> bool {
    (mask >> i) & 1 == 1
}

/// Whether `mask` has the bits of just these groups, group 1 having the lowest.
pub open spec fn is_group_mask(mask: u32, groups: Seq<u32>) -> bool {
    forall|i: u32| i < 32 ==> (#[trigger] has_bit(mask, i) <==> groups.contains((i + 1) as u32))
}

/// The number that has the bits of just these groups.
pub open spec fn group_mask(groups: Seq<u32>) -> u32
    decreases groups.len(),
{
    if groups.len() == 0 {
        0
    } else {
        group_mask(groups.drop_last()) | (1u32 << ((groups.last() - 1) as u32))
    }
}

/// Group `g` is among the groups just where bit `g - 1` is set.
pub proof fn law_group_mask(groups: Seq<u32>)
    requires
        groups_valid(groups),
    ensures
        is_group_mask(group_mask(groups), groups),
    decreases groups.len(),
{
    let mask = group_mask(groups);
    if groups.len() == 0 {
        assert forall|i: u32| i < 32 implies (#[trigger] has_bit(mask, i) <==> groups.contains((i + 1) as u32)) by {
            assert((0u32 >> i) & 1 == 0) by (bit_vector);
        }
    } else {
        let front = groups.drop_last();
        let last = (groups.last() - 1) as u32;
        let before = group_mask(front);
        assert forall|i: int| 0 <= i < front.len() implies 1 <= #[trigger] front[i] <= 32 by {
            assert(front[i] == groups[i]);
        }
        law_group_mask(front);
        assert forall|i: u32| i < 32 implies (#[trigger] has_bit(mask, i) <==> groups.contains((i + 1) as u32)) by {
            assert(last < 32) by {
                assert(groups[groups.len() - 1] <= 32);
            }
            assert((mask >> i) & 1 == 1 <==> ((before >> i) & 1 == 1 || i == last)) by (bit_vector)
                requires
                    i < 32,
                    last < 32,
                    mask == before | (1u32 << last),
            ;
            assert(has_bit(before, i) <==> front.contains((i + 1) as u32));
            let g = (i + 1) as u32;
            if front.contains(g) {
                let k = choose|k: int| 0 <= k < front.len() && front[k] == g;
                assert(groups[k] == g);
            }
            if i == last {
                assert(groups[groups.len() - 1] == g);
            }
            if groups.contains(g) && i != last {
                let k = choose|k: int| 0 <= k < groups.len() && groups[k] == g;
                assert(k != groups.len() - 1) by {
                    assert(groups.last() == last + 1);
                }
                assert(front[k] == g);
            }
        }
    }
}

/// Whether every group has a bit.
pub fn check_groups(groups: &Vec<u32>) -> (r: bool)
    ensures
        r == groups_valid(groups@),
{
    let mut i: usize = 0;
    while i < groups.len()
        invariant
            i <= groups@.len(),
            forall|k: int| 0 <= k < i ==> 1 <= #[trigger] groups@[k] <= 32,
        decreases groups@.len() - i,
    {
        if groups[i] < 1 || groups[i] > 32 {
            return false;
        }
        i = i + 1;
    }
    true
}

/// The number that has the bits of just these groups.
pub fn mask_of_groups(groups: &Vec<u32>) -> (mask: u32)
    requires
        groups_valid(groups@),
    ensures
        mask == group_mask(groups@),
        is_group_mask(mask, groups@),
{
    let mut mask: u32 = 0;
    let mut i: usize = 0;
    assert(groups@.take(0) =~= Seq::<u32>::empty());
    while i < groups.len()
        invariant
            i <= groups@.len(),
            groups_valid(groups@),
            mask == group_mask(groups@.take(i as int)),
        decreases groups@.len() - i,
    {
        mask = mask | (1u32 << (groups[i] - 1));
        i = i + 1;
        assert(groups@.take(i as int).drop_last() =~= groups@.take(i - 1));
    }
    assert(groups@.take(i as int) =~= groups@);
    proof {
        law_group_mask(groups@);
    }
    mask
}

} // verus!
