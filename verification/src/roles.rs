//! The role table as a mathematical object: the two system roles, then the
//! other roles in the order of their positions, which are always exactly
//! 1..N.

use crate::consts::{RESERVED_ROLES, ROLE_BOTS, ROLE_HUMANS};
use crate::types::AttributeView;
use vstd::prelude::*;

verus! {

/// Whether an id belongs to one of the two system roles.
pub open spec fn is_system(id: usize) -> bool {
    id == ROLE_HUMANS || id == ROLE_BOTS
}

/// The name of the system role of human users.
pub open spec fn humans_name() -> Seq<char> {
    "@humans"@
}

/// The name of the system role of bots.
pub open spec fn bots_name() -> Seq<char> {
    "@bots"@
}

/// A well-formed role table.
///
/// The two system roles stand first, at position 0, under their fixed names
/// and unassignable. Every other role stands at the index that is its
/// position plus one, so the positions of the N other roles are exactly
/// 1..N. No id occurs twice.
pub open spec fn table_ok(t: Seq<AttributeView>) -> bool {
    &&& t.len() >= 2
    &&& t[0].id == ROLE_HUMANS && t[0].pos == 0 && t[0].name == humans_name() && t[0].unassignable
    &&& t[1].id == ROLE_BOTS && t[1].pos == 0 && t[1].name == bots_name() && t[1].unassignable
    &&& forall|i: int| 2 <= i < t.len() ==> (#[trigger] t[i]).pos == i - 1 && t[i].id > RESERVED_ROLES
    &&& forall|i: int, j: int| 0 <= i < j < t.len() ==> (#[trigger] t[i]).id != (#[trigger] t[j]).id
}

/// The number of roles that are not system roles.
pub open spec fn others(t: Seq<AttributeView>) -> int {
    t.len() - 2
}

/// The index of the role with the given id, or -1.
pub open spec fn index_of(t: Seq<AttributeView>, id: usize) -> int
    decreases t.len(),
{
    if t.len() == 0 {
        -1
    } else if t.last().id == id && index_of(t.drop_last(), id) < 0 {
        t.len() - 1
    } else {
        index_of(t.drop_last(), id)
    }
}

/// Whether a role with the given id exists.
pub open spec fn has_role(t: Seq<AttributeView>, id: usize) -> bool {
    index_of(t, id) >= 0
}

/// The same role at another position.
pub open spec fn at_pos(r: AttributeView, pos: usize) -> AttributeView {
    AttributeView { pos, ..r }
}

/// Gives every role but the system roles the position that its index asks
/// for.
pub open spec fn renumber(t: Seq<AttributeView>) -> Seq<AttributeView> {
    Seq::new(
        t.len(),
        |i: int|
            if i < 2 {
                t[i]
            } else {
                at_pos(t[i], (i - 1) as usize)
            },
    )
}

/// The table after `r` entered it at position `r.pos`: the roles from that
/// position on move up by one.
pub open spec fn table_create(t: Seq<AttributeView>, r: AttributeView) -> Seq<AttributeView> {
    renumber(t.insert(r.pos + 1, r))
}

/// The table after the role at index `k` left it: the roles behind it move
/// down by one.
pub open spec fn table_delete(t: Seq<AttributeView>, k: int) -> Seq<AttributeView> {
    renumber(t.remove(k))
}

/// The table after the role at index `k` was replaced by `r`. A system role
/// stays where it is; another role moves to position `r.pos`, and the roles
/// between its old and its new position move by one to make room.
pub open spec fn table_update(t: Seq<AttributeView>, k: int, r: AttributeView) -> Seq<
    AttributeView,
> {
    if k < 2 {
        t.update(k, r)
    } else {
        renumber(t.remove(k).insert(r.pos + 1, r))
    }
}

/// A change to the role table.
pub enum RoleOp {
    /// A new role enters at its position.
    Create(AttributeView),
    /// The role with this id leaves.
    Delete(usize),
    /// The role with this id gets new fields and, maybe, a new position.
    Update(AttributeView),
}

/// Whether the table takes a change. A change that it does not take leaves
/// it as it was.
pub open spec fn op_allowed(t: Seq<AttributeView>, op: RoleOp) -> bool {
    match op {
        RoleOp::Create(r) => 1 <= r.pos <= others(t) + 1 && r.id > RESERVED_ROLES && !has_role(
            t,
            r.id,
        ) && t.len() < usize::MAX,
        RoleOp::Delete(id) => index_of(t, id) >= 2,
        RoleOp::Update(r) => {
            let k = index_of(t, r.id);
            if k < 0 {
                false
            } else if k < 2 {
                r.pos == 0 && r.name == t[k].name && r.unassignable
            } else {
                1 <= r.pos <= others(t)
            }
        },
    }
}

/// The table after one change.
pub open spec fn apply_op(t: Seq<AttributeView>, op: RoleOp) -> Seq<AttributeView> {
    if !op_allowed(t, op) {
        t
    } else {
        match op {
            RoleOp::Create(r) => table_create(t, r),
            RoleOp::Delete(id) => table_delete(t, index_of(t, id)),
            RoleOp::Update(r) => table_update(t, index_of(t, r.id), r),
        }
    }
}

/// The table after a sequence of changes, first to last.
pub open spec fn apply_ops(t: Seq<AttributeView>, ops: Seq<RoleOp>) -> Seq<AttributeView>
    decreases ops.len(),
{
    if ops.len() == 0 {
        t
    } else {
        apply_ops(apply_op(t, ops[0]), ops.drop_first())
    }
}

/// `index_of` finds the role: a result that is not negative is the index of
/// a role with that id, and a negative result says that there is none.
pub proof fn lemma_index_of(t: Seq<AttributeView>, id: usize)
    ensures
        -1 <= index_of(t, id) < t.len(),
        index_of(t, id) >= 0 ==> t[index_of(t, id)].id == id,
        index_of(t, id) < 0 ==> forall|i: int| 0 <= i < t.len() ==> (#[trigger] t[i]).id != id,
        forall|i: int| 0 <= i < index_of(t, id) ==> (#[trigger] t[i]).id != id,
    decreases t.len(),
{
    if t.len() > 0 {
        lemma_index_of(t.drop_last(), id);
        let k = index_of(t.drop_last(), id);
        assert forall|i: int| 0 <= i < t.len() - 1 implies t[i] == t.drop_last()[i] by {}
        if k < 0 {
            assert forall|i: int| 0 <= i < t.len() - 1 implies (#[trigger] t[i]).id != id by {
                assert(t.drop_last()[i].id != id);
            }
        } else {
            assert forall|i: int| 0 <= i < k implies (#[trigger] t[i]).id != id by {
                assert(t.drop_last()[i].id != id);
            }
        }
    }
}

/// Creating a role keeps the table well-formed.
pub proof fn lemma_create_ok(t: Seq<AttributeView>, r: AttributeView)
    requires
        table_ok(t),
        op_allowed(t, RoleOp::Create(r)),
    ensures
        table_ok(table_create(t, r)),
        table_create(t, r).len() == t.len() + 1,
        table_create(t, r)[r.pos + 1] == r,
{
    lemma_index_of(t, r.id);
    let u = t.insert(r.pos + 1, r);
    let n = table_create(t, r);
    assert forall|i: int, j: int| 0 <= i < j < n.len() implies (#[trigger] n[i]).id != (
    #[trigger] n[j]).id by {
        let a = if i < r.pos + 1 { i } else { i - 1 };
        let b = if j < r.pos + 1 { j } else { j - 1 };
        if i == r.pos + 1 {
            assert(u[j] == t[b]);
            assert(t[b].id != r.id);
        } else if j == r.pos + 1 {
            assert(u[i] == t[a]);
            assert(t[a].id != r.id);
        } else {
            assert(u[i] == t[a]);
            assert(u[j] == t[b]);
            assert(t[a].id != t[b].id);
        }
    }
    assert forall|i: int| 2 <= i < n.len() implies (#[trigger] n[i]).pos == i - 1 && n[i].id
        > RESERVED_ROLES by {
        if i != r.pos + 1 {
            let a = if i < r.pos + 1 { i } else { i - 1 };
            assert(u[i] == t[a]);
            assert(t[a].id > RESERVED_ROLES);
        }
    }
}

/// Deleting a role that is not a system role keeps the table well-formed.
pub proof fn lemma_delete_ok(t: Seq<AttributeView>, k: int)
    requires
        table_ok(t),
        2 <= k < t.len(),
    ensures
        table_ok(table_delete(t, k)),
        table_delete(t, k).len() == t.len() - 1,
{
    let u = t.remove(k);
    let n = table_delete(t, k);
    assert forall|i: int, j: int| 0 <= i < j < n.len() implies (#[trigger] n[i]).id != (
    #[trigger] n[j]).id by {
        let a = if i < k { i } else { i + 1 };
        let b = if j < k { j } else { j + 1 };
        assert(u[i] == t[a]);
        assert(u[j] == t[b]);
        assert(t[a].id != t[b].id);
    }
    assert forall|i: int| 2 <= i < n.len() implies (#[trigger] n[i]).pos == i - 1 && n[i].id
        > RESERVED_ROLES by {
        let a = if i < k { i } else { i + 1 };
        assert(u[i] == t[a]);
        assert(t[a].id > RESERVED_ROLES);
    }
}

/// Updating a role, and moving it where its new position asks, keeps the
/// table well-formed.
pub proof fn lemma_update_ok(t: Seq<AttributeView>, r: AttributeView)
    requires
        table_ok(t),
        op_allowed(t, RoleOp::Update(r)),
    ensures
        table_ok(table_update(t, index_of(t, r.id), r)),
        table_update(t, index_of(t, r.id), r).len() == t.len(),
        index_of(t, r.id) >= 2 ==> table_update(t, index_of(t, r.id), r)[r.pos + 1] == r,
{
    lemma_index_of(t, r.id);
    let k = index_of(t, r.id);
    let n = table_update(t, k, r);
    if k < 2 {
        assert forall|i: int, j: int| 0 <= i < j < n.len() implies (#[trigger] n[i]).id != (
        #[trigger] n[j]).id by {
            assert(n[i].id == t[i].id);
            assert(n[j].id == t[j].id);
        }
        assert forall|i: int| 2 <= i < n.len() implies (#[trigger] n[i]).pos == i - 1 && n[i].id
            > RESERVED_ROLES by {
            assert(n[i] == t[i]);
        }
    } else {
        let u = t.remove(k);
        let w = u.insert(r.pos + 1, r);
        assert forall|i: int| 0 <= i < u.len() implies (#[trigger] u[i]).id != r.id && u[i].id == t[if i
            < k { i } else { i + 1 }].id by {
            let a = if i < k { i } else { i + 1 };
            assert(u[i] == t[a]);
            if a < k {
                assert(t[a].id != t[k].id);
            } else {
                assert(t[k].id != t[a].id);
            }
        }
        assert forall|i: int, j: int| 0 <= i < j < n.len() implies (#[trigger] n[i]).id != (
        #[trigger] n[j]).id by {
            let a = if i < r.pos + 1 { i } else { i - 1 };
            let b = if j < r.pos + 1 { j } else { j - 1 };
            if i == r.pos + 1 {
                assert(w[j] == u[b]);
            } else if j == r.pos + 1 {
                assert(w[i] == u[a]);
            } else {
                assert(w[i] == u[a]);
                assert(w[j] == u[b]);
                let a2 = if a < k { a } else { a + 1 };
                let b2 = if b < k { b } else { b + 1 };
                assert(u[a] == t[a2]);
                assert(u[b] == t[b2]);
                assert(t[a2].id != t[b2].id);
            }
        }
        assert forall|i: int| 2 <= i < n.len() implies (#[trigger] n[i]).pos == i - 1 && n[i].id
            > RESERVED_ROLES by {
            if i != r.pos + 1 {
                let a = if i < r.pos + 1 { i } else { i - 1 };
                assert(w[i] == u[a]);
                let a2 = if a < k { a } else { a + 1 };
                assert(u[a] == t[a2]);
                assert(t[a2].id > RESERVED_ROLES);
            } else {
                assert(t[k].id > RESERVED_ROLES);
            }
        }
    }
}

/// One change, taken or not, keeps the table well-formed.
pub proof fn lemma_op_ok(t: Seq<AttributeView>, op: RoleOp)
    requires
        table_ok(t),
    ensures
        table_ok(apply_op(t, op)),
{
    if op_allowed(t, op) {
        match op {
            RoleOp::Create(r) => {
                lemma_create_ok(t, r);
            },
            RoleOp::Delete(id) => {
                lemma_index_of(t, id);
                lemma_delete_ok(t, index_of(t, id));
            },
            RoleOp::Update(r) => {
                lemma_update_ok(t, r);
            },
        }
    }
}

/// In a well-formed table the positions of the roles that are not system
/// roles are exactly 1..N, each taken once.
pub proof fn lemma_positions_dense(t: Seq<AttributeView>)
    requires
        table_ok(t),
    ensures
        forall|p: int| 1 <= p <= others(t) ==> (#[trigger] t[p + 1]).pos == p,
        forall|i: int| 2 <= i < t.len() ==> 1 <= (#[trigger] t[i]).pos <= others(t),
        forall|i: int, j: int|
            2 <= i < t.len() && 2 <= j < t.len() && i != j ==> (#[trigger] t[i]).pos != (
            #[trigger] t[j]).pos,
{
}

/// Position density: after any sequence of role creations, deletions and
/// updates, taken or refused, the table is well-formed, so the positions
/// of the roles that are not system roles are exactly 1..N.
pub proof fn lemma_density_is_invariant(t: Seq<AttributeView>, ops: Seq<RoleOp>)
    requires
        table_ok(t),
    ensures
        table_ok(apply_ops(t, ops)),
        forall|p: int|
            1 <= p <= others(apply_ops(t, ops)) ==> (#[trigger] apply_ops(t, ops)[p + 1]).pos == p,
        forall|i: int|
            2 <= i < apply_ops(t, ops).len() ==> 1 <= (#[trigger] apply_ops(t, ops)[i]).pos
                <= others(apply_ops(t, ops)),
    decreases ops.len(),
{
    if ops.len() > 0 {
        lemma_op_ok(t, ops[0]);
        lemma_density_is_invariant(apply_op(t, ops[0]), ops.drop_first());
    }
    lemma_positions_dense(apply_ops(t, ops));
}

/// A role exists exactly when some entry of the table has its id.
pub proof fn lemma_has_role(t: Seq<AttributeView>, id: usize)
    ensures
        has_role(t, id) <==> exists|i: int| 0 <= i < t.len() && (#[trigger] t[i]).id == id,
{
    lemma_index_of(t, id);
    if has_role(t, id) {
        assert(t[index_of(t, id)].id == id);
    }
}

/// After a creation the table holds the roles that it held, and the new
/// one.
pub proof fn lemma_create_ids(t: Seq<AttributeView>, r: AttributeView, id: usize)
    requires
        0 <= r.pos + 1 <= t.len(),
    ensures
        has_role(table_create(t, r), id) <==> has_role(t, id) || id == r.id,
{
    let n = table_create(t, r);
    let u = t.insert(r.pos + 1, r);
    lemma_has_role(t, id);
    lemma_has_role(n, id);
    if has_role(t, id) {
        let i = choose|i: int| 0 <= i < t.len() && (#[trigger] t[i]).id == id;
        let j = if i < r.pos + 1 { i } else { i + 1 };
        assert(u[j] == t[i]);
        assert(n[j].id == id);
    }
    if id == r.id {
        assert(n[r.pos + 1].id == id);
    }
    if has_role(n, id) {
        let j = choose|j: int| 0 <= j < n.len() && (#[trigger] n[j]).id == id;
        if j != r.pos + 1 {
            let i = if j < r.pos + 1 { j } else { j - 1 };
            assert(u[j] == t[i]);
            assert(t[i].id == id);
        }
    }
}

/// After a deletion the table holds the roles that it held, but the
/// deleted one.
pub proof fn lemma_delete_ids(t: Seq<AttributeView>, k: int, id: usize)
    requires
        0 <= k < t.len(),
        forall|i: int, j: int| 0 <= i < j < t.len() ==> (#[trigger] t[i]).id != (#[trigger] t[j]).id,
    ensures
        has_role(table_delete(t, k), id) <==> has_role(t, id) && id != t[k].id,
{
    let n = table_delete(t, k);
    let u = t.remove(k);
    lemma_has_role(t, id);
    lemma_has_role(n, id);
    if has_role(t, id) && id != t[k].id {
        let i = choose|i: int| 0 <= i < t.len() && (#[trigger] t[i]).id == id;
        let j = if i < k { i } else { i - 1 };
        assert(u[j] == t[i]);
        assert(n[j].id == id);
    }
    if has_role(n, id) {
        let j = choose|j: int| 0 <= j < n.len() && (#[trigger] n[j]).id == id;
        let i = if j < k { j } else { j + 1 };
        assert(u[j] == t[i]);
        assert(t[i].id == id);
        if i < k {
            assert(t[i].id != t[k].id);
        } else {
            assert(t[k].id != t[i].id);
        }
    }
}

/// An update changes no id: the table holds the roles that it held.
pub proof fn lemma_update_ids(t: Seq<AttributeView>, k: int, r: AttributeView, id: usize)
    requires
        0 <= k < t.len(),
        r.id == t[k].id,
        k >= 2 ==> 0 <= r.pos + 1 < t.len(),
    ensures
        has_role(table_update(t, k, r), id) <==> has_role(t, id),
{
    let n = table_update(t, k, r);
    lemma_has_role(t, id);
    lemma_has_role(n, id);
    if k < 2 {
        if has_role(t, id) {
            let i = choose|i: int| 0 <= i < t.len() && (#[trigger] t[i]).id == id;
            assert(n[i].id == id);
        }
        if has_role(n, id) {
            let i = choose|i: int| 0 <= i < n.len() && (#[trigger] n[i]).id == id;
            assert(t[i].id == id);
        }
    } else {
        let u = t.remove(k);
        let w = u.insert(r.pos + 1, r);
        if has_role(t, id) {
            let i = choose|i: int| 0 <= i < t.len() && (#[trigger] t[i]).id == id;
            if i == k {
                assert(n[r.pos + 1].id == id);
            } else {
                let a = if i < k { i } else { i - 1 };
                assert(u[a] == t[i]);
                let b = if a < r.pos + 1 { a } else { a + 1 };
                assert(w[b] == u[a]);
                assert(n[b].id == id);
            }
        }
        if has_role(n, id) {
            let b = choose|b: int| 0 <= b < n.len() && (#[trigger] n[b]).id == id;
            if b == r.pos + 1 {
                assert(t[k].id == id);
            } else {
                let a = if b < r.pos + 1 { b } else { b - 1 };
                assert(w[b] == u[a]);
                let i = if a < k { a } else { a + 1 };
                assert(u[a] == t[i]);
                assert(t[i].id == id);
            }
        }
    }
}

} // verus!
