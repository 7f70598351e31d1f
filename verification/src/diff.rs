//! The plan-diff engine: the changes that lead from a prior state to a
//! proposed one, attribute by attribute.
//!
//! A path names a place inside a state: a member of the root by its key, a
//! member of what stands at `p` as `p.key`, an item of the array at `p` as
//! `p[index]`.

use vstd::prelude::*;
use vstd::string::StringExecFns;
use crate::json::{
    item_views, lemma_array_view, lemma_member_views, lemma_object_view, member_views, Json,
    JsonValue,
};
use crate::name_map::{has_name, lemma_value_decreases, lookup, NameMap};
use crate::text::{bracketed, bracketed_path, join_path, joined_path};
use crate::types::{change_views, AttributeChange, ChangeView, PlanResult, PlanView};

verus! {

/// The path under which a change of the whole value is reported.
pub const ROOT_PATH: &'static str = "(root)";

/// One leaf at `path`: new where `added`, else gone.
pub open spec fn leaf_change(path: Seq<char>, value: Json, added: bool) -> ChangeView {
    if added {
        ChangeView::added(path, value)
    } else {
        ChangeView::removed(path, value)
    }
}

/// The leaves of `value`, which stands at `path`, each as one change: new
/// where `added`, else gone. An object gives the leaves of its members, an
/// array those of its items, and anything else is one leaf.
pub open spec fn leaf_changes(value: Json, path: Seq<char>, added: bool) -> Seq<ChangeView>
    decreases value, 0nat,
{
    match value {
        Json::Object(members) => member_leaf_changes(members, path, added, members.len()),
        Json::Array(items) => item_leaf_changes(items, path, added, items.len()),
        _ => seq![leaf_change(path, value, added)],
    }
}

/// The leaves of the first `count` of `members`.
pub open spec fn member_leaf_changes(
    members: Seq<(Seq<char>, Json)>,
    path: Seq<char>,
    added: bool,
    count: nat,
) -> Seq<ChangeView>
    decreases members, count,
{
    if count == 0 || count > members.len() {
        Seq::empty()
    } else {
        let i = (count - 1) as int;
        member_leaf_changes(members, path, added, i as nat) + leaf_changes(
            members[i].1,
            joined_path(path, members[i].0),
            added,
        )
    }
}

/// The leaves of the first `count` of `items`.
pub open spec fn item_leaf_changes(items: Seq<Json>, path: Seq<char>, added: bool, count: nat) -> Seq<
    ChangeView,
>
    decreases items, count,
{
    if count == 0 || count > items.len() {
        Seq::empty()
    } else {
        let i = (count - 1) as int;
        item_leaf_changes(items, path, added, i as nat) + leaf_changes(
            items[i],
            bracketed(path, i as nat),
            added,
        )
    }
}

/// The changes that make `proposed` out of nothing: its leaves, all new. A
/// root that is neither an object nor an array gives none.
pub open spec fn creation_changes(proposed: Json) -> Seq<ChangeView> {
    match proposed {
        Json::Object(_) | Json::Array(_) => leaf_changes(proposed, Seq::empty(), true),
        _ => Seq::empty(),
    }
}

/// The changes that lead from `prior` to `proposed`, both standing at
/// `path`, which is shown as `shown` where the two are reported as a whole.
///
/// Values that are the same give none. Two objects are compared member by
/// member: first
/// the members of `prior`, each against the member of the same key or, where
/// there is none, with its leaves gone; then the members that only
/// `proposed` has, with their leaves new. Two arrays are compared index by
/// index, the items that only one of them has with their leaves gone or new.
/// Anything else is one modification, reported at `shown`.
pub open spec fn comparison_changes(
    prior: Json,
    proposed: Json,
    path: Seq<char>,
    shown: Seq<char>,
) -> Seq<ChangeView>
    decreases prior, 0nat,
{
    if prior.same(proposed) {
        Seq::empty()
    } else {
        match (prior, proposed) {
            (Json::Object(before), Json::Object(after)) => prior_member_changes(
                before,
                after,
                path,
                before.len(),
            ) + new_member_changes(before, after, path, after.len()),
            (Json::Array(before), Json::Array(after)) => item_changes(
                before,
                after,
                path,
                if before.len() >= after.len() {
                    before.len()
                } else {
                    after.len()
                },
            ),
            _ => seq![ChangeView::modified(shown, prior, proposed)],
        }
    }
}

/// The changes of the first `count` members of `before`.
pub open spec fn prior_member_changes(
    before: Seq<(Seq<char>, Json)>,
    after: Seq<(Seq<char>, Json)>,
    path: Seq<char>,
    count: nat,
) -> Seq<ChangeView>
    decreases before, count,
{
    if count == 0 || count > before.len() {
        Seq::empty()
    } else {
        let i = (count - 1) as int;
        let member_path = joined_path(path, before[i].0);
        prior_member_changes(before, after, path, i as nat) + match lookup(after, before[i].0) {
            Some(proposed) => comparison_changes(before[i].1, proposed, member_path, member_path),
            None => leaf_changes(before[i].1, member_path, false),
        }
    }
}

/// The changes of those of the first `count` members of `after` that
/// `before` does not have.
pub open spec fn new_member_changes(
    before: Seq<(Seq<char>, Json)>,
    after: Seq<(Seq<char>, Json)>,
    path: Seq<char>,
    count: nat,
) -> Seq<ChangeView>
    decreases count,
{
    if count == 0 || count > after.len() {
        Seq::empty()
    } else {
        let i = (count - 1) as int;
        new_member_changes(before, after, path, i as nat) + if has_name(before, after[i].0) {
            Seq::empty()
        } else {
            leaf_changes(after[i].1, joined_path(path, after[i].0), true)
        }
    }
}

/// The changes at the first `count` indices of two arrays.
pub open spec fn item_changes(before: Seq<Json>, after: Seq<Json>, path: Seq<char>, count: nat) -> Seq<
    ChangeView,
>
    decreases before, count,
{
    if count == 0 {
        Seq::empty()
    } else {
        let i = (count - 1) as int;
        let item_path = bracketed(path, i as nat);
        item_changes(before, after, path, i as nat) + if i < before.len() && i < after.len() {
            comparison_changes(before[i], after[i], item_path, item_path)
        } else if i < before.len() {
            leaf_changes(before[i], item_path, false)
        } else if i < after.len() {
            leaf_changes(after[i], item_path, true)
        } else {
            Seq::empty()
        }
    }
}

/// The plan that leads from `prior` to `proposed`: `proposed` as the
/// planned state, the changes of a creation where there is no prior state
/// and of a comparison where there is one, and no replacement. The
/// comparison starts at the root, whose path is empty; a change of the whole
/// state is reported under `ROOT_PATH`.
pub open spec fn planned(prior: Option<Json>, proposed: Json) -> PlanView {
    PlanView {
        planned_state: proposed,
        changes: match prior {
            None => creation_changes(proposed),
            Some(before) => comparison_changes(before, proposed, Seq::empty(), ROOT_PATH@),
        },
        requires_replace: false,
    }
}

/// Appends `change` to `changes`.
fn push_change(changes: &mut Vec<AttributeChange>, change: AttributeChange)
    ensures
        change_views(final(changes)@) == change_views(old(changes)@).push(change@),
{
    changes.push(change);
    assert(change_views(changes@) =~= change_views(old(changes)@).push(change@));
}

/// Appends the leaves of `value`, which stands at `path`, to `changes`: new
/// where `added`, else gone.
pub fn collect_leaves(
    value: &JsonValue,
    path: &str,
    added: bool,
    changes: &mut Vec<AttributeChange>,
)
    ensures
        change_views(final(changes)@) == change_views(old(changes)@) + leaf_changes(
            value@,
            path@,
            added,
        ),
    decreases value,
{
    let ghost start = change_views(changes@);
    match value {
        JsonValue::Object(members) => {
            proof {
                lemma_object_view(*members);
            }
            let mut i: usize = 0;
            while i < members.len()
                invariant
                    i <= members@.len(),
                    *value == JsonValue::Object(*members),
                    change_views(changes@) == start + member_leaf_changes(
                        member_views(members@),
                        path@,
                        added,
                        i as nat,
                    ),
                decreases members@.len() - i,
            {
                let member_path = join_path(path, members.name_at(i).as_str());
                proof {
                    assert(decreases_to!(value => value->Object_0));
                    lemma_value_decreases(*members, i as int);
                }
                collect_leaves(members.value_at(i), member_path.as_str(), added, changes);
                i += 1;
                assert(change_views(changes@) =~= start + member_leaf_changes(
                    member_views(members@),
                    path@,
                    added,
                    i as nat,
                ));
            }
        },
        JsonValue::Array(items) => {
            proof {
                lemma_array_view(*items);
            }
            let mut i: usize = 0;
            while i < items.len()
                invariant
                    i <= items.len(),
                    *value == JsonValue::Array(*items),
                    change_views(changes@) == start + item_leaf_changes(
                        item_views(items@),
                        path@,
                        added,
                        i as nat,
                    ),
                decreases items.len() - i,
            {
                let item_path = bracketed_path(path, i);
                proof {
                    assert(decreases_to!(value => value->Array_0));
                    assert(decreases_to!(items => items@));
                    assert(decreases_to!(items@ => items@[i as int]));
                }
                collect_leaves(&items[i], item_path.as_str(), added, changes);
                i += 1;
                assert(change_views(changes@) =~= start + item_leaf_changes(
                    item_views(items@),
                    path@,
                    added,
                    i as nat,
                ));
            }
        },
        _ => {
            let change = if added {
                AttributeChange::added(path, value.clone())
            } else {
                AttributeChange::removed(path, value.clone())
            };
            push_change(changes, change);
            assert(change_views(changes@) =~= start + seq![leaf_change(path@, value@, added)]);
        },
    }
}

/// Appends the changes that lead from `prior` to `proposed`, both standing
/// at `path`, to `changes`; where the two are reported as a whole, they are
/// reported at `shown`.
pub fn compare(
    prior: &JsonValue,
    proposed: &JsonValue,
    path: &str,
    shown: &str,
    changes: &mut Vec<AttributeChange>,
)
    ensures
        change_views(final(changes)@) == change_views(old(changes)@) + comparison_changes(
            prior@,
            proposed@,
            path@,
            shown@,
        ),
    decreases prior,
{
    let ghost start = change_views(changes@);
    if prior.equals(proposed) {
        assert(change_views(changes@) =~= start + Seq::empty());
        return ;
    }
    match prior {
        JsonValue::Object(before) => {
            match proposed {
                JsonValue::Object(after) => {
                    compare_members(before, after, path, changes, Ghost(*prior));
                    proof {
                        lemma_object_view(*before);
                        lemma_object_view(*after);
                    }
                    return ;
                },
                _ => {},
            }
        },
        JsonValue::Array(before) => {
            match proposed {
                JsonValue::Array(after) => {
                    compare_items(before, after, path, changes, Ghost(*prior));
                    proof {
                        lemma_array_view(*before);
                        lemma_array_view(*after);
                    }
                    return ;
                },
                _ => {},
            }
        },
        _ => {},
    }
    push_change(changes, AttributeChange::modified(shown, prior.clone(), proposed.clone()));
    assert(change_views(changes@) =~= start + seq![
        ChangeView::modified(shown@, prior@, proposed@),
    ]);
}

/// Appends the changes between the members of two objects.
fn compare_members(
    before: &NameMap<JsonValue>,
    after: &NameMap<JsonValue>,
    path: &str,
    changes: &mut Vec<AttributeChange>,
    Ghost(whole): Ghost<JsonValue>,
)
    requires
        whole == JsonValue::Object(*before),
    ensures
        change_views(final(changes)@) == change_views(old(changes)@) + (prior_member_changes(
            member_views(before@),
            member_views(after@),
            path@,
            before@.len(),
        ) + new_member_changes(
            member_views(before@),
            member_views(after@),
            path@,
            after@.len(),
        )),
    decreases whole, 0nat,
{
    let ghost start = change_views(changes@);
    let mut i: usize = 0;
    while i < before.len()
        invariant
            i <= before@.len(),
            whole == JsonValue::Object(*before),
            change_views(changes@) == start + prior_member_changes(
                member_views(before@),
                member_views(after@),
                path@,
                i as nat,
            ),
        decreases before@.len() - i,
    {
        let name = before.name_at(i);
        let member_path = join_path(path, name.as_str());
        proof {
            use_type_invariant(after);
            lemma_member_views(after@, name@);
            assert(decreases_to!(whole => whole->Object_0));
            lemma_value_decreases(*before, i as int);
        }
        match after.get(name.as_str()) {
            Some(proposed) => {
                compare(
                    before.value_at(i),
                    proposed,
                    member_path.as_str(),
                    member_path.as_str(),
                    changes,
                );
            },
            None => {
                collect_leaves(before.value_at(i), member_path.as_str(), false, changes);
            },
        }
        i += 1;
        assert(change_views(changes@) =~= start + prior_member_changes(
            member_views(before@),
            member_views(after@),
            path@,
            i as nat,
        ));
    }
    let ghost middle = change_views(changes@);
    let mut j: usize = 0;
    while j < after.len()
        invariant
            j <= after@.len(),
            change_views(changes@) == middle + new_member_changes(
                member_views(before@),
                member_views(after@),
                path@,
                j as nat,
            ),
        decreases after@.len() - j,
    {
        let name = after.name_at(j);
        proof {
            use_type_invariant(before);
            lemma_member_views(before@, name@);
        }
        if !before.contains_key(name.as_str()) {
            let member_path = join_path(path, name.as_str());
            collect_leaves(after.value_at(j), member_path.as_str(), true, changes);
        }
        j += 1;
        assert(change_views(changes@) =~= middle + new_member_changes(
            member_views(before@),
            member_views(after@),
            path@,
            j as nat,
        ));
    }
    assert(change_views(changes@) =~= start + (prior_member_changes(
        member_views(before@),
        member_views(after@),
        path@,
        before@.len(),
    ) + new_member_changes(member_views(before@), member_views(after@), path@, after@.len())));
}

/// Appends the changes between the items of two arrays.
fn compare_items(
    before: &Vec<JsonValue>,
    after: &Vec<JsonValue>,
    path: &str,
    changes: &mut Vec<AttributeChange>,
    Ghost(whole): Ghost<JsonValue>,
)
    requires
        whole == JsonValue::Array(*before),
    ensures
        change_views(final(changes)@) == change_views(old(changes)@) + item_changes(
            item_views(before@),
            item_views(after@),
            path@,
            if before@.len() >= after@.len() {
                before@.len()
            } else {
                after@.len()
            },
        ),
    decreases whole, 0nat,
{
    let ghost start = change_views(changes@);
    let count = if before.len() >= after.len() {
        before.len()
    } else {
        after.len()
    };
    let mut i: usize = 0;
    while i < count
        invariant
            i <= count,
            count == (if before@.len() >= after@.len() {
                before@.len()
            } else {
                after@.len()
            }),
            whole == JsonValue::Array(*before),
            change_views(changes@) == start + item_changes(
                item_views(before@),
                item_views(after@),
                path@,
                i as nat,
            ),
        decreases count - i,
    {
        let item_path = bracketed_path(path, i);
        if i < before.len() && i < after.len() {
            proof {
                assert(decreases_to!(whole => whole->Array_0));
                assert(decreases_to!(before => before@));
                assert(decreases_to!(before@ => before@[i as int]));
            }
            compare(&before[i], &after[i], item_path.as_str(), item_path.as_str(), changes);
        } else if i < before.len() {
            collect_leaves(&before[i], item_path.as_str(), false, changes);
        } else {
            collect_leaves(&after[i], item_path.as_str(), true, changes);
        }
        i += 1;
        assert(change_views(changes@) =~= start + item_changes(
            item_views(before@),
            item_views(after@),
            path@,
            i as nat,
        ));
    }
}

/// The plan that leads from `prior` to `proposed`.
///
/// The planned state is `proposed`. Without a prior state every leaf of
/// `proposed` is new; with one, the changes are those of the comparison. No
/// plan asks for a replacement: that is for the provider to decide.
pub fn diff(prior: Option<JsonValue>, proposed: JsonValue) -> (plan: PlanResult)
    ensures
        plan@ == planned(crate::types::optional_view(prior), proposed@),
        plan.planned_state == proposed,
{
    let mut changes: Vec<AttributeChange> = Vec::new();
    assert(change_views(changes@) =~= Seq::empty());
    proof {
        reveal_strlit("");
        assert(""@ =~= Seq::<char>::empty());
    }
    match &prior {
        None => {
            if proposed.is_object() || proposed.is_array() {
                collect_leaves(&proposed, "", true, &mut changes);
            }
        },
        Some(before) => {
            compare(before, &proposed, "", ROOT_PATH, &mut changes);
        },
    }
    assert(change_views(changes@) =~= planned(
        crate::types::optional_view(prior),
        proposed@,
    ).changes);
    PlanResult { planned_state: proposed, changes, requires_replace: false }
}

} // verus!
