//! Resolving a role tip's destination accounts from a guild's member
//! list: members holding the role, or every member for the guild-wide
//! everyone role.

use vstd::prelude::*;

verus! {

/// A guild member as the role filter sees it: the account identifier
/// and the member's explicit role list.
#[derive(Clone, Debug)]
pub struct RoleMember {
    pub id: u64,
    pub roles: Vec<u64>,
}

/// The accounts a role tip goes to, in member-list order: members that
/// carry the role explicitly, or every member when the role is the
/// everyone role (its identifier equals the guild's, and no member's
/// explicit role list carries it).
pub open spec fn spec_role_recipients(members: Seq<RoleMember>, role: u64, everyone: u64) -> Seq<
    u64,
>
    decreases members.len(),
{
    if members.len() == 0 {
        Seq::empty()
    } else {
        let rest = spec_role_recipients(members.drop_first(), role, everyone);
        if members[0].roles@.contains(role) || role == everyone {
            seq![members[0].id] + rest
        } else {
            rest
        }
    }
}

proof fn lemma_role_recipients_push(s: Seq<RoleMember>, x: RoleMember, role: u64, everyone: u64)
    ensures
        spec_role_recipients(s.push(x), role, everyone) == spec_role_recipients(
            s,
            role,
            everyone,
        ) + (if x.roles@.contains(role) || role == everyone {
            seq![x.id]
        } else {
            Seq::<u64>::empty()
        }),
    decreases s.len(),
{
    let t = s.push(x);
    let tail = (if x.roles@.contains(role) || role == everyone {
        seq![x.id]
    } else {
        Seq::<u64>::empty()
    });
    if s.len() == 0 {
        assert(t[0] == x);
        assert(t.drop_first() =~= Seq::<RoleMember>::empty());
        assert(spec_role_recipients(Seq::<RoleMember>::empty(), role, everyone)
            =~= Seq::<u64>::empty());
        assert(spec_role_recipients(t, role, everyone) =~= tail);
        assert(spec_role_recipients(s, role, everyone) + tail =~= tail);
    } else {
        assert(t[0] == s[0]);
        assert(t.drop_first() =~= s.drop_first().push(x));
        lemma_role_recipients_push(s.drop_first(), x, role, everyone);
        if s[0].roles@.contains(role) || role == everyone {
            assert(spec_role_recipients(t, role, everyone) =~= seq![s[0].id]
                + spec_role_recipients(s.drop_first().push(x), role, everyone));
            assert(seq![s[0].id] + (spec_role_recipients(s.drop_first(), role, everyone)
                + tail) =~= (seq![s[0].id] + spec_role_recipients(s.drop_first(), role, everyone))
                + tail);
        }
    }
}

fn has_role(roles: &Vec<u64>, role: u64) -> (r: bool)
    ensures
        r == roles@.contains(role),
{
    let n = roles.len();
    let mut i: usize = 0;
    while i < n
        invariant
            i <= n,
            n == roles@.len(),
            forall|j: int| 0 <= j < i ==> roles@[j] != role,
        decreases n - i,
    {
        if roles[i] == role {
            return true;
        }
        i = i + 1;
    }
    false
}

/// Filters a guild member list down to the accounts a role tip will
/// reach, keeping member-list order.
pub fn role_recipients(members: &Vec<RoleMember>, role: u64, everyone: u64) -> (r: Vec<u64>)
    ensures
        r@ == spec_role_recipients(members@, role, everyone),
{
    let n = members.len();
    let mut r: Vec<u64> = Vec::new();
    let mut i: usize = 0;
    while i < n
        invariant
            i <= n,
            n == members@.len(),
            r@ == spec_role_recipients(members@.take(i as int), role, everyone),
        decreases n - i,
    {
        proof {
            assert(members@.take(i + 1 as int) =~= members@.take(i as int).push(
                members@[i as int],
            ));
            lemma_role_recipients_push(
                members@.take(i as int),
                members@[i as int],
                role,
                everyone,
            );
        }
        if has_role(&members[i].roles, role) || role == everyone {
            r.push(members[i].id);
            proof {
                assert(r@ =~= spec_role_recipients(members@.take(i as int), role, everyone)
                    + seq![members@[i as int].id]);
            }
        } else {
            proof {
                assert(r@ =~= spec_role_recipients(members@.take(i as int), role, everyone)
                    + Seq::<u64>::empty());
            }
        }
        i = i + 1;
    }
    proof {
        assert(members@.take(n as int) =~= members@);
    }
    r
}

} // verus!
