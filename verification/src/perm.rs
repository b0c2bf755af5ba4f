//! The permission model: allow and deny masks folded in role order.

use crate::config::Config;
use crate::consts::{RESERVED_ROLES, ROLE_BOTS, ROLE_HUMANS};
use crate::types::{attribute_views, Attribute, AttributeView};
use std::collections::HashMap;
use vstd::prelude::*;
use vstd::std_specs::iter::IteratorSpec;

verus! {

/// One step of the fold: `allow` grants bits, then `deny` takes bits away.
pub open spec fn apply_mask(mask: u8, allow: u8, deny: u8) -> u8 {
    (mask | allow) & !deny
}

/// The mask after all of `pairs` were applied to `mask`, first to last.
pub open spec fn fold_masks(mask: u8, pairs: Seq<(u8, u8)>) -> u8
    decreases pairs.len(),
{
    if pairs.len() == 0 {
        mask
    } else {
        fold_masks(apply_mask(mask, pairs[0].0, pairs[0].1), pairs.drop_first())
    }
}

/// Applies one (allow, deny) pair to a mask.
pub fn perm_apply(into: &mut u8, pair: (u8, u8))
    ensures
        *final(into) == apply_mask(*old(into), pair.0, pair.1),
{
    let (allow, deny) = pair;
    *into = (*into | allow) & !deny;
}

/// Applies every pair that `attributes` yields, in the order in which it
/// yields them. The caller hands them over sorted by role position.
pub fn perm_apply_iter<I: Iterator<Item = (u8, u8)>>(into: &mut u8, attributes: &mut I)
    requires
        I::obeys_prophetic_iter_laws(old(attributes)),
        I::decrease(old(attributes)) is Some,
    ensures
        *final(into) == fold_masks(*old(into), I::remaining(old(attributes))),
        I::remaining(final(attributes)).len() == 0,
{
    loop
        invariant
            I::obeys_prophetic_iter_laws(attributes),
            I::decrease(attributes) is Some,
            fold_masks(*into, I::remaining(attributes)) == fold_masks(
                *old(into),
                I::remaining(old(attributes)),
            ),
        decreases I::decrease(attributes)->0,
    {
        match attributes.next() {
            Some(attribute) => {
                perm_apply(into, attribute);
            },
            None => {
                return ;
            },
        }
    }
}

/// Whether a mask grants a permission to a user: the owner is granted
/// everything, and anybody else what the mask holds.
pub open spec fn permitted(config: Config, user: usize, bitmask: u8, perm: u8) -> bool {
    config.owner_id == user || bitmask & perm == perm
}

/// Tests a permission against an effective mask; the owner passes every
/// test.
pub fn has_perm(config: &Config, user: usize, bitmask: u8, perm: u8) -> (ok: bool)
    ensures
        ok == permitted(*config, user, bitmask, perm),
{
    config.owner_id == user || bitmask & perm == perm
}

/// The system role that a user holds without being given it.
pub open spec fn system_role(bot: bool) -> usize {
    if bot {
        ROLE_BOTS
    } else {
        ROLE_HUMANS
    }
}

/// Whether a user holds a role: its system role, or one of its own.
pub open spec fn holds_role(bot: bool, explicit: Seq<usize>, id: usize) -> bool {
    id == system_role(bot) || explicit.contains(id)
}

/// Whether a channel's override for a role applies to a user: the overrides
/// of both system roles apply to everybody, another one to the holders of
/// its role.
pub open spec fn override_applies(explicit: Seq<usize>, id: usize) -> bool {
    id <= RESERVED_ROLES || explicit.contains(id)
}

/// The (allow, deny) pairs of the roles that a user holds, in table order,
/// which is the order of the positions.
pub open spec fn role_pairs(t: Seq<AttributeView>, bot: bool, explicit: Seq<usize>) -> Seq<
    (u8, u8),
>
    decreases t.len(),
{
    if t.len() == 0 {
        Seq::empty()
    } else {
        let rest = role_pairs(t.drop_last(), bot, explicit);
        if holds_role(bot, explicit, t.last().id) {
            rest.push((t.last().allow, t.last().deny))
        } else {
            rest
        }
    }
}

/// The overrides that apply to a user, in the table order of their roles.
/// An override for a role that is not in the table is left out.
pub open spec fn override_pairs(
    t: Seq<AttributeView>,
    explicit: Seq<usize>,
    overrides: Map<usize, (u8, u8)>,
) -> Seq<(u8, u8)>
    decreases t.len(),
{
    if t.len() == 0 {
        Seq::empty()
    } else {
        let rest = override_pairs(t.drop_last(), explicit, overrides);
        let id = t.last().id;
        if override_applies(explicit, id) && overrides.contains_key(id) {
            rest.push(overrides[id])
        } else {
            rest
        }
    }
}

/// The effective mask of a user: from 0, the user's roles folded in the
/// order of their positions, then, inside a channel, the overrides that
/// apply.
pub open spec fn effective_mask(
    t: Seq<AttributeView>,
    bot: bool,
    explicit: Seq<usize>,
    overrides: Option<Map<usize, (u8, u8)>>,
) -> u8 {
    let base = fold_masks(0, role_pairs(t, bot, explicit));
    match overrides {
        None => base,
        Some(o) => fold_masks(base, override_pairs(t, explicit, o)),
    }
}

/// Whether a list of ids holds an id.
pub fn contains_id(list: &[usize], id: usize) -> (found: bool)
    ensures
        found == list@.contains(id),
{
    let mut i: usize = 0;
    while i < list.len()
        invariant
            i <= list.len(),
            forall|j: int| 0 <= j < i ==> list@[j] != id,
        decreases list.len() - i,
    {
        if list[i] == id {
            return true;
        }
        i += 1;
    }
    false
}

/// Computes the effective mask of a user with the given roles, outside any
/// channel or, with `chan_overrides`, inside one. `roles` is the role table
/// in the order of the positions.
pub fn calculate_permissions(
    roles: &[Attribute],
    bot: bool,
    groups: &[usize],
    chan_overrides: Option<&HashMap<usize, (u8, u8)>>,
) -> (mask: u8)
    ensures
        mask == effective_mask(
            attribute_views(roles@),
            bot,
            groups@,
            match chan_overrides {
                Some(o) => Some(o@),
                None => None,
            },
        ),
{
    broadcast use vstd::std_specs::hash::group_hash_axioms;

    let ghost t = attribute_views(roles@);
    let own: usize = if bot {
        ROLE_BOTS
    } else {
        ROLE_HUMANS
    };
    let mut rows: Vec<(u8, u8)> = Vec::new();
    let mut i: usize = 0;
    while i < roles.len()
        invariant
            i <= roles.len(),
            t == attribute_views(roles@),
            own == system_role(bot),
            rows@ == role_pairs(t.take(i as int), bot, groups@),
        decreases roles.len() - i,
    {
        assert(t.take(i + 1).drop_last() =~= t.take(i as int));
        if roles[i].id == own || contains_id(groups, roles[i].id) {
            rows.push((roles[i].allow, roles[i].deny));
        }
        i += 1;
    }
    assert(t.take(roles.len() as int) =~= t);
    let mut perms: u8 = 0;
    let mut rows_iter = rows.into_iter();
    perm_apply_iter(&mut perms, &mut rows_iter);
    if let Some(overrides) = chan_overrides {
        let mut extra: Vec<(u8, u8)> = Vec::new();
        let mut k: usize = 0;
        while k < roles.len()
            invariant
                k <= roles.len(),
                t == attribute_views(roles@),
                extra@ == override_pairs(t.take(k as int), groups@, overrides@),
            decreases roles.len() - k,
        {
            assert(t.take(k + 1).drop_last() =~= t.take(k as int));
            let id: usize = roles[k].id;
            if id <= RESERVED_ROLES || contains_id(groups, id) {
                match overrides.get(&id) {
                    Some(pair) => {
                        extra.push(*pair);
                    },
                    None => {},
                }
            }
            k += 1;
        }
        assert(t.take(roles.len() as int) =~= t);
        let mut extra_iter = extra.into_iter();
        perm_apply_iter(&mut perms, &mut extra_iter);
    }
    perms
}

/// A pair that allows nothing and denies nothing changes no mask.
pub proof fn lemma_neutral_pair(mask: u8)
    ensures
        apply_mask(mask, 0, 0) == mask,
{
    assert((mask | 0) & !0u8 == mask) by (bit_vector);
}

/// Override precedence: after an override `(allow, deny)` the mask is the
/// mask before it with the allowed bits set and then the denied bits
/// cleared, so a denied bit is never left and an allowed bit that is not
/// denied is always set.
pub proof fn lemma_override_precedence(mask: u8, allow: u8, deny: u8)
    ensures
        apply_mask(mask, allow, deny) == (mask | allow) & !deny,
        apply_mask(mask, allow, deny) & deny == 0,
        apply_mask(mask, allow, deny) & (allow & !deny) == allow & !deny,
        apply_mask(mask, allow, deny) & !(allow | deny) == mask & !(allow | deny),
{
    assert(((mask | allow) & !deny) & deny == 0) by (bit_vector);
    assert(((mask | allow) & !deny) & (allow & !deny) == allow & !deny) by (bit_vector);
    assert(((mask | allow) & !deny) & !(allow | deny) == mask & !(allow | deny)) by (bit_vector);
}

/// Folding a list with one more pair at its end is folding the list and
/// then applying the pair.
pub proof fn lemma_fold_push(mask: u8, pairs: Seq<(u8, u8)>, last: (u8, u8))
    ensures
        fold_masks(mask, pairs.push(last)) == apply_mask(fold_masks(mask, pairs), last.0, last.1),
    decreases pairs.len(),
{
    let longer = pairs.push(last);
    if pairs.len() == 0 {
        assert(longer.drop_first() =~= Seq::<(u8, u8)>::empty());
        assert(longer[0] == last);
        assert(fold_masks(apply_mask(mask, last.0, last.1), longer.drop_first()) == apply_mask(
            mask,
            last.0,
            last.1,
        ));
    } else {
        assert(longer.drop_first() =~= pairs.drop_first().push(last));
        assert(longer[0] == pairs[0]);
        lemma_fold_push(apply_mask(mask, pairs[0].0, pairs[0].1), pairs.drop_first(), last);
    }
}

/// Permission monotonicity in base roles: giving a user one more role
/// whose masks are `(0, 0)` does not change the user's effective mask
/// outside channels.
pub proof fn lemma_neutral_role(t: Seq<AttributeView>, bot: bool, explicit: Seq<usize>, role: usize)
    requires
        forall|i: int| 0 <= i < t.len() && (#[trigger] t[i]).id == role ==> t[i].allow == 0 && t[i].deny == 0,
    ensures
        effective_mask(t, bot, explicit.push(role), None) == effective_mask(t, bot, explicit, None),
    decreases t.len(),
{
    if t.len() > 0 {
        let head = t.drop_last();
        let x = t.last();
        assert forall|i: int| 0 <= i < head.len() && (#[trigger] head[i]).id == role implies head[i].allow
            == 0 && head[i].deny == 0 by {
            assert(head[i] == t[i]);
        }
        lemma_neutral_role(head, bot, explicit, role);
        let wide = role_pairs(head, bot, explicit.push(role));
        let narrow = role_pairs(head, bot, explicit);
        let pair = (x.allow, x.deny);
        lemma_fold_push(0, wide, pair);
        lemma_fold_push(0, narrow, pair);
        if explicit.contains(x.id) {
            let j = choose|j: int| 0 <= j < explicit.len() && explicit[j] == x.id;
            assert(explicit.push(role)[j] == x.id);
        }
        if explicit.push(role).contains(x.id) && !explicit.contains(x.id) {
            let j = choose|j: int| 0 <= j < explicit.push(role).len() && explicit.push(role)[j] == x.id;
            if j < explicit.len() {
                assert(explicit[j] == x.id);
            }
            assert(x.id == role);
            assert(t[t.len() - 1].id == role);
            lemma_neutral_pair(fold_masks(0, wide));
        }
    }
}

/// Override precedence in a channel: when exactly the override `(allow,
/// deny)` of one role applies to a user, the user's mask in the channel is
/// the base mask with `allow` set and then `deny` cleared.
pub proof fn lemma_single_override(
    t: Seq<AttributeView>,
    bot: bool,
    explicit: Seq<usize>,
    role: usize,
    allow: u8,
    deny: u8,
)
    requires
        exists|k: int| 0 <= k < t.len() && (#[trigger] t[k]).id == role,
        forall|i: int, j: int| 0 <= i < j < t.len() ==> (#[trigger] t[i]).id != (#[trigger] t[j]).id,
        override_applies(explicit, role),
    ensures
        effective_mask(t, bot, explicit, Some(Map::empty().insert(role, (allow, deny))))
            == apply_mask(effective_mask(t, bot, explicit, None), allow, deny),
{
    let k = choose|k: int| 0 <= k < t.len() && (#[trigger] t[k]).id == role;
    let ov = Map::<usize, (u8, u8)>::empty().insert(role, (allow, deny));
    lemma_single_override_pairs(t, explicit, role, allow, deny, k, t.len() as int);
    assert(t.take(t.len() as int) =~= t);
    let base = fold_masks(0, role_pairs(t, bot, explicit));
    let one = seq![(allow, deny)];
    assert(one.drop_first() =~= Seq::<(u8, u8)>::empty());
    assert(fold_masks(base, one) == fold_masks(
        apply_mask(base, one[0].0, one[0].1),
        one.drop_first(),
    ));
}

proof fn lemma_single_override_pairs(
    t: Seq<AttributeView>,
    explicit: Seq<usize>,
    role: usize,
    allow: u8,
    deny: u8,
    k: int,
    n: int,
)
    requires
        0 <= k < t.len(),
        0 <= n <= t.len(),
        t[k].id == role,
        forall|i: int, j: int| 0 <= i < j < t.len() ==> (#[trigger] t[i]).id != (#[trigger] t[j]).id,
        override_applies(explicit, role),
    ensures
        override_pairs(t.take(n), explicit, Map::empty().insert(role, (allow, deny))) == (if n <= k {
            Seq::<(u8, u8)>::empty()
        } else {
            seq![(allow, deny)]
        }),
    decreases n,
{
    if n > 0 {
        lemma_single_override_pairs(t, explicit, role, allow, deny, k, n - 1);
        assert(t.take(n).drop_last() =~= t.take(n - 1));
        assert(t.take(n).last() == t[n - 1]);
        if n - 1 < k {
            assert(t[n - 1].id != t[k].id);
        } else if n - 1 > k {
            assert(t[k].id != t[n - 1].id);
        } else {
            assert(Seq::<(u8, u8)>::empty().push((allow, deny)) =~= seq![(allow, deny)]);
        }
    }
}

} // verus!
