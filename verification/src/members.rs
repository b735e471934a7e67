//! Named members in ascending order of their names: what a struct holds, as a
//! sequence, and what putting and finding a member does to it.

use vstd::prelude::*;
use crate::text::{
    lemma_name_precedes_irreflexive, lemma_name_precedes_transitive, lemma_names_comparable,
    name_precedes,
};
use crate::wire::Wire;

verus! {

/// The value of the first of `members`, at index `from` or later, that is
/// named `name`.
pub open spec fn member_from(members: Seq<(Seq<char>, Wire)>, name: Seq<char>, from: int) -> Option<
    Wire,
>
    decreases members.len() - from,
{
    if from < 0 || from >= members.len() {
        None
    } else if members[from].0 == name {
        Some(members[from].1)
    } else {
        member_from(members, name, from + 1)
    }
}

/// Whether each of `members` is named strictly before all that follow it, so
/// that no name occurs twice.
pub open spec fn names_ascend(members: Seq<(Seq<char>, Wire)>) -> bool {
    forall|i: int, j: int|
        0 <= i < j < members.len() ==> name_precedes(
            (#[trigger] members[i]).0,
            (#[trigger] members[j]).0,
        )
}

/// The number of members, counted from index `from`, that are named before
/// `name`, added to `from`: where `name` stands among ascending `members`, or
/// would stand.
pub open spec fn position_from(members: Seq<(Seq<char>, Wire)>, name: Seq<char>, from: int) -> int
    decreases members.len() - from,
{
    if 0 <= from < members.len() && name_precedes(members[from].0, name) {
        position_from(members, name, from + 1)
    } else {
        from
    }
}

/// `members` with `value` under `name`: in place of the value that `name` had,
/// or else as a new member where the order of the names puts it.
pub open spec fn with_member(members: Seq<(Seq<char>, Wire)>, name: Seq<char>, value: Wire) -> Seq<
    (Seq<char>, Wire),
> {
    let at = position_from(members, name, 0);
    if at < members.len() && members[at].0 == name {
        members.update(at, (name, value))
    } else {
        members.insert(at, (name, value))
    }
}

/// Whether `at` is the place of `name` among `members`: every member before
/// it is named before `name`, and every member from it on is named after
/// `name`, but for the member at `at` itself where that is named `name`.
pub open spec fn is_place(members: Seq<(Seq<char>, Wire)>, name: Seq<char>, at: int) -> bool {
    &&& 0 <= at <= members.len()
    &&& forall|j: int| 0 <= j < at ==> name_precedes(#[trigger] members[j].0, name)
    &&& forall|j: int|
        at <= j < members.len() && !(j == at && members[at].0 == name) ==> name_precedes(
            name,
            #[trigger] members[j].0,
        )
}

/// Among ascending members, every name has its place, and the search finds
/// it.
pub proof fn lemma_position_is_place(members: Seq<(Seq<char>, Wire)>, name: Seq<char>)
    requires
        names_ascend(members),
    ensures
        is_place(members, name, position_from(members, name, 0)),
{
    lemma_position_from_is_place(members, name, 0);
}

proof fn lemma_position_from_is_place(members: Seq<(Seq<char>, Wire)>, name: Seq<char>, from: int)
    requires
        names_ascend(members),
        0 <= from <= members.len(),
        forall|j: int| 0 <= j < from ==> name_precedes(#[trigger] members[j].0, name),
    ensures
        is_place(members, name, position_from(members, name, from)),
    decreases members.len() - from,
{
    if from < members.len() && name_precedes(members[from].0, name) {
        lemma_position_from_is_place(members, name, from + 1);
    } else if from < members.len() {
        let held = members[from].0;
        lemma_names_comparable(held, name);
        assert forall|j: int|
            from <= j < members.len() && !(j == from && held == name) implies name_precedes(
            name,
            #[trigger] members[j].0,
        ) by {
            if from < j {
                assert(name_precedes(members[from].0, members[j].0));
                if held != name {
                    lemma_name_precedes_transitive(name, held, members[j].0);
                }
            }
        }
    }
}

/// The member under `name` is the one at the place of `name`, if it is named
/// `name`; if it is not, there is none.
pub proof fn lemma_member_at_place(members: Seq<(Seq<char>, Wire)>, name: Seq<char>, at: int)
    requires
        is_place(members, name, at),
    ensures
        member_from(members, name, 0) == if at < members.len() && members[at].0 == name {
            Some(members[at].1)
        } else {
            None
        },
{
    lemma_name_precedes_irreflexive(name);
    lemma_member_from_passes(members, name, 0, at);
    if !(at < members.len() && members[at].0 == name) {
        lemma_member_from_passes(members, name, at, members.len() as int);
    }
}

/// Each member of ascending members is found under its name.
pub proof fn lemma_member_of_ascending(members: Seq<(Seq<char>, Wire)>, at: int)
    requires
        names_ascend(members),
        0 <= at < members.len(),
    ensures
        member_from(members, members[at].0, 0) == Some(members[at].1),
{
    let name = members[at].0;
    assert forall|j: int| 0 <= j < at implies members[j].0 != name by {
        assert(name_precedes(members[j].0, members[at].0));
        lemma_name_precedes_irreflexive(name);
    }
    lemma_member_from_passes(members, name, 0, at);
}

/// Putting a value under a name keeps ascending members ascending.
pub proof fn lemma_with_member_ascends(
    members: Seq<(Seq<char>, Wire)>,
    name: Seq<char>,
    value: Wire,
)
    requires
        names_ascend(members),
    ensures
        names_ascend(with_member(members, name, value)),
{
    lemma_position_is_place(members, name);
    let at = position_from(members, name, 0);
    let found = at < members.len() && members[at].0 == name;
    let after = with_member(members, name, value);
    assert forall|i: int, j: int| 0 <= i < j < after.len() implies name_precedes(
        (#[trigger] after[i]).0,
        (#[trigger] after[j]).0,
    ) by {
        if found {
            assert(name_precedes(members[i].0, members[j].0));
        } else {
            let before_i = if i < at {
                i
            } else {
                i - 1
            };
            let before_j = if j < at {
                j
            } else {
                j - 1
            };
            if i != at && j != at {
                assert(name_precedes(members[before_i].0, members[before_j].0));
            }
        }
    }
}

/// A value that was put under a name is found under it.
pub proof fn lemma_with_member_holds(
    members: Seq<(Seq<char>, Wire)>,
    name: Seq<char>,
    value: Wire,
)
    requires
        names_ascend(members),
    ensures
        member_from(with_member(members, name, value), name, 0) == Some(value),
{
    lemma_position_is_place(members, name);
    lemma_with_member_ascends(members, name, value);
    let at = position_from(members, name, 0);
    let after = with_member(members, name, value);
    assert(after[at] == (name, value));
    lemma_member_of_ascending(after, at);
}

/// Putting a value under a name leaves what is held under other names as it
/// was.
pub proof fn lemma_with_member_keeps_others(
    members: Seq<(Seq<char>, Wire)>,
    name: Seq<char>,
    value: Wire,
    other: Seq<char>,
)
    requires
        names_ascend(members),
        other != name,
    ensures
        member_from(with_member(members, name, value), other, 0) == member_from(members, other, 0),
{
    lemma_position_is_place(members, name);
    lemma_position_is_place(members, other);
    lemma_with_member_ascends(members, name, value);
    let at = position_from(members, name, 0);
    let found = at < members.len() && members[at].0 == name;
    let there = position_from(members, other, 0);
    let after = with_member(members, name, value);
    lemma_member_at_place(members, other, there);
    if there < members.len() && members[there].0 == other {
        let moved = if found || there < at {
            there
        } else {
            there + 1
        };
        assert(after[moved] == members[there]);
        lemma_member_of_ascending(after, moved);
    } else {
        assert forall|j: int| 0 <= j < after.len() implies (#[trigger] after[j]).0 != other by {
            if j == at {
            } else {
                let back = if found || j < at {
                    j
                } else {
                    j - 1
                };
                assert(after[j] == members[back]);
                if back < there {
                    assert(name_precedes(members[back].0, other));
                } else {
                    assert(name_precedes(other, members[back].0));
                }
                lemma_name_precedes_irreflexive(other);
            }
        }
        lemma_member_from_passes(after, other, 0, after.len() as int);
    }
}

/// A value put under a name that comes after every name held becomes the last
/// member.
pub proof fn lemma_with_member_appends(
    members: Seq<(Seq<char>, Wire)>,
    name: Seq<char>,
    value: Wire,
)
    requires
        forall|j: int| 0 <= j < members.len() ==> name_precedes(#[trigger] members[j].0, name),
    ensures
        with_member(members, name, value) == members.push((name, value)),
{
    lemma_position_from_skips(members, name, 0);
    assert(members.insert(members.len() as int, (name, value)) =~= members.push((name, value)));
}

/// The search for the place of `name` runs to the end if every member from
/// `from` on is named before `name`.
proof fn lemma_position_from_skips(members: Seq<(Seq<char>, Wire)>, name: Seq<char>, from: int)
    requires
        0 <= from <= members.len(),
        forall|j: int| from <= j < members.len() ==> name_precedes(#[trigger] members[j].0, name),
    ensures
        position_from(members, name, from) == members.len(),
    decreases members.len() - from,
{
    if from < members.len() {
        lemma_position_from_skips(members, name, from + 1);
    }
}

/// A search that starts at `from` goes on from `to` if no member in between
/// is named `name`.
proof fn lemma_member_from_passes(
    members: Seq<(Seq<char>, Wire)>,
    name: Seq<char>,
    from: int,
    to: int,
)
    requires
        0 <= from <= to <= members.len(),
        forall|j: int| from <= j < to ==> members[j].0 != name,
    ensures
        member_from(members, name, from) == member_from(members, name, to),
    decreases to - from,
{
    if from < to {
        lemma_member_from_passes(members, name, from + 1, to);
    }
}

} // verus!
