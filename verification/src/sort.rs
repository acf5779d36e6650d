//! The canonical arrangement of a document: by name, ascending, entries that
//! share a name staying in the order in which they were written.

use vstd::prelude::*;
use crate::config::{document_view, ApplicationConfiguration, ApplicationConfigurationView};
use crate::text::{
    lemma_name_le_antisymmetric, lemma_name_le_reflexive, lemma_name_le_total,
    lemma_name_le_transitive, name_le, name_precedes,
};

verus! {

/// No application stands before one whose name precedes its own.
pub open spec fn ordered_by_name(apps: Seq<ApplicationConfigurationView>) -> bool {
    forall|i: int, j: int| 0 <= i < j < apps.len() ==> name_le(apps[i].name, apps[j].name)
}

/// Where an application called `name` joins `apps`: behind the last entry
/// whose name does not come after `name`.
pub open spec fn insertion_point(apps: Seq<ApplicationConfigurationView>, name: Seq<char>) -> int
    decreases apps.len(),
{
    if apps.len() == 0 || name_le(apps.last().name, name) {
        apps.len() as int
    } else {
        insertion_point(apps.drop_last(), name)
    }
}

/// `apps` with `app` added at its [`insertion_point`].
pub open spec fn insert_by_name(
    apps: Seq<ApplicationConfigurationView>,
    app: ApplicationConfigurationView,
) -> Seq<ApplicationConfigurationView> {
    apps.insert(insertion_point(apps, app.name), app)
}

/// The canonical arrangement of `apps`: each application in turn joins those
/// before it at its [`insertion_point`].
pub open spec fn sorted_by_name(apps: Seq<ApplicationConfigurationView>) -> Seq<
    ApplicationConfigurationView,
>
    decreases apps.len(),
{
    if apps.len() == 0 {
        Seq::empty()
    } else {
        insert_by_name(sorted_by_name(apps.drop_last()), apps.last())
    }
}

/// The entries of `apps` that are called `name`, in order.
pub open spec fn entries_named(apps: Seq<ApplicationConfigurationView>, name: Seq<char>) -> Seq<
    ApplicationConfigurationView,
> {
    apps.filter(|app: ApplicationConfigurationView| app.name == name)
}

/// An insertion point lies within the list, directly behind an entry that
/// does not come after `name`, and before only entries that do.
pub proof fn lemma_insertion_point(apps: Seq<ApplicationConfigurationView>, name: Seq<char>)
    ensures
        0 <= insertion_point(apps, name) <= apps.len(),
        insertion_point(apps, name) > 0 ==> name_le(
            apps[insertion_point(apps, name) - 1].name,
            name,
        ),
        forall|j: int|
            insertion_point(apps, name) <= j < apps.len() ==> !name_le(
                (#[trigger] apps[j]).name,
                name,
            ),
    decreases apps.len(),
{
    if apps.len() == 0 || name_le(apps.last().name, name) {
    } else {
        let init = apps.drop_last();
        lemma_insertion_point(init, name);
        assert forall|j: int| insertion_point(apps, name) <= j < apps.len() implies !name_le(
            (#[trigger] apps[j]).name,
            name,
        ) by {
            if j < init.len() {
                assert(!name_le(init[j].name, name));
            }
        }
    }
}

/// The place that [`lemma_insertion_point`] describes is the only one.
pub proof fn lemma_insertion_point_unique(
    apps: Seq<ApplicationConfigurationView>,
    name: Seq<char>,
    pos: int,
)
    requires
        0 <= pos <= apps.len(),
        pos > 0 ==> name_le(apps[pos - 1].name, name),
        forall|j: int| pos <= j < apps.len() ==> !name_le((#[trigger] apps[j]).name, name),
    ensures
        insertion_point(apps, name) == pos,
    decreases apps.len(),
{
    if apps.len() > 0 && !name_le(apps.last().name, name) {
        lemma_insertion_point_unique(apps.drop_last(), name, pos);
    }
}

/// Adding an application to an ordered list leaves it ordered.
pub proof fn lemma_insert_keeps_order(
    apps: Seq<ApplicationConfigurationView>,
    app: ApplicationConfigurationView,
)
    requires
        ordered_by_name(apps),
    ensures
        ordered_by_name(insert_by_name(apps, app)),
{
    let pos = insertion_point(apps, app.name);
    let out = insert_by_name(apps, app);
    lemma_insertion_point(apps, app.name);
    assert forall|i: int, j: int| 0 <= i < j < out.len() implies name_le(
        out[i].name,
        out[j].name,
    ) by {
        if j == pos {
            lemma_name_le_reflexive(apps[i].name);
            lemma_name_le_transitive(apps[i].name, apps[pos - 1].name, app.name);
        } else if i == pos {
            lemma_name_le_total(apps[j - 1].name, app.name);
        }
    }
}

/// The canonical arrangement is ordered by name.
pub proof fn lemma_sorted_is_ordered(apps: Seq<ApplicationConfigurationView>)
    ensures
        ordered_by_name(sorted_by_name(apps)),
    decreases apps.len(),
{
    if apps.len() > 0 {
        lemma_sorted_is_ordered(apps.drop_last());
        lemma_insert_keeps_order(sorted_by_name(apps.drop_last()), apps.last());
    }
}

/// The canonical arrangement holds the applications of the document, each as
/// often as the document does.
pub proof fn lemma_sorted_keeps_entries(apps: Seq<ApplicationConfigurationView>)
    ensures
        sorted_by_name(apps).to_multiset() == apps.to_multiset(),
        sorted_by_name(apps).len() == apps.len(),
    decreases apps.len(),
{
    if apps.len() == 0 {
        assert(sorted_by_name(apps) =~= apps);
    } else {
        let init = apps.drop_last();
        lemma_sorted_keeps_entries(init);
        lemma_insertion_point(sorted_by_name(init), apps.last().name);
        vstd::seq_lib::to_multiset_insert(
            sorted_by_name(init),
            insertion_point(sorted_by_name(init), apps.last().name),
            apps.last(),
        );
        vstd::seq_lib::to_multiset_build(init, apps.last());
        assert(init.push(apps.last()) =~= apps);
    }
}

/// A document that is ordered by name is its own canonical arrangement.
pub proof fn lemma_ordered_is_fixed(apps: Seq<ApplicationConfigurationView>)
    requires
        ordered_by_name(apps),
    ensures
        sorted_by_name(apps) == apps,
    decreases apps.len(),
{
    if apps.len() > 0 {
        lemma_drop_last_keeps_order(apps);
        lemma_ordered_is_fixed(apps.drop_last());
    }
}

/// Arranging a document twice gives what arranging it once gives.
pub proof fn lemma_sorted_idempotent(apps: Seq<ApplicationConfigurationView>)
    ensures
        sorted_by_name(sorted_by_name(apps)) == sorted_by_name(apps),
{
    lemma_sorted_is_ordered(apps);
    lemma_ordered_is_fixed(sorted_by_name(apps));
}

/// Adding an application changes the entries of its own name only, and
/// there it comes last.
pub proof fn lemma_insert_entries_named(
    apps: Seq<ApplicationConfigurationView>,
    app: ApplicationConfigurationView,
    name: Seq<char>,
)
    ensures
        entries_named(insert_by_name(apps, app), name) == if app.name == name {
            entries_named(apps, name).push(app)
        } else {
            entries_named(apps, name)
        },
{
    let pos = insertion_point(apps, app.name);
    let named = |a: ApplicationConfigurationView| a.name == name;
    let front = apps.subrange(0, pos);
    let back = apps.subrange(pos, apps.len() as int);
    lemma_insertion_point(apps, app.name);
    assert(apps =~= front + back);
    Seq::filter_distributes_over_add(front, back, named);
    Seq::filter_distributes_over_add(front.push(app), back, named);
    front.lemma_filter_push(app, named);
    if app.name == name {
        assert forall|i: int| 0 <= i < back.len() implies !named(#[trigger] back[i]) by {
            lemma_name_le_reflexive(name);
        }
        back.lemma_all_neg_filter_empty(named);
    }
}

/// Applications that share a name stand in the canonical arrangement in the
/// order in which the document has them.
pub proof fn lemma_sorted_is_stable(apps: Seq<ApplicationConfigurationView>, name: Seq<char>)
    ensures
        entries_named(sorted_by_name(apps), name) == entries_named(apps, name),
    decreases apps.len(),
{
    let named = |a: ApplicationConfigurationView| a.name == name;
    if apps.len() > 0 {
        let init = apps.drop_last();
        lemma_sorted_is_stable(init, name);
        lemma_insert_entries_named(sorted_by_name(init), apps.last(), name);
        init.lemma_filter_push(apps.last(), named);
        assert(init.push(apps.last()) =~= apps);
    }
}

/// A name that an ordered list holds does not come after the name of the
/// list's last entry.
proof fn lemma_held_name_is_bounded(apps: Seq<ApplicationConfigurationView>, name: Seq<char>)
    requires
        ordered_by_name(apps),
        entries_named(apps, name).len() > 0,
    ensures
        apps.len() > 0,
        name_le(name, apps.last().name),
{
    let named = |app: ApplicationConfigurationView| app.name == name;
    let entry = entries_named(apps, name)[0];
    apps.lemma_filter_pred(named, 0);
    apps.lemma_filter_contains_rev(named, entry);
    lemma_name_le_reflexive(name);
}

/// An ordered list without its last entry is ordered.
proof fn lemma_drop_last_keeps_order(apps: Seq<ApplicationConfigurationView>)
    requires
        ordered_by_name(apps),
        apps.len() > 0,
    ensures
        ordered_by_name(apps.drop_last()),
{
}

/// Two ordered lists that hold, for every name, the same entries in the
/// same order are one list.
pub proof fn lemma_ordered_arrangement_unique(
    one: Seq<ApplicationConfigurationView>,
    other: Seq<ApplicationConfigurationView>,
)
    requires
        ordered_by_name(one),
        ordered_by_name(other),
        forall|name: Seq<char>| entries_named(one, name) == entries_named(other, name),
    ensures
        one == other,
    decreases one.len(),
{
    if one.len() == 0 {
        if other.len() > 0 {
            let name = other.last().name;
            let named = |app: ApplicationConfigurationView| app.name == name;
            other.lemma_filter_contains(named, other.len() - 1);
            one.lemma_filter_len(named);
            assert(entries_named(one, name) == entries_named(other, name));
        }
    } else {
        let name = one.last().name;
        let named = |app: ApplicationConfigurationView| app.name == name;
        one.lemma_filter_contains(named, one.len() - 1);
        assert(entries_named(one, name) == entries_named(other, name));
        lemma_held_name_is_bounded(other, name);
        let last_name = other.last().name;
        let last_named = |app: ApplicationConfigurationView| app.name == last_name;
        other.lemma_filter_contains(last_named, other.len() - 1);
        lemma_held_name_is_bounded(one, last_name);
        lemma_name_le_antisymmetric(name, last_name);
        let one_init = one.drop_last();
        let other_init = other.drop_last();
        assert(one_init.push(one.last()) =~= one);
        assert(other_init.push(other.last()) =~= other);
        assert forall|n: Seq<char>| entries_named(one_init, n) == entries_named(
            other_init,
            n,
        ) by {
            let called = |app: ApplicationConfigurationView| app.name == n;
            one_init.lemma_filter_push(one.last(), called);
            other_init.lemma_filter_push(other.last(), called);
            assert(entries_named(one, n) == entries_named(other, n));
            if n == name {
                assert(one_init.filter(called).push(one.last()).drop_last() =~= one_init.filter(
                    called,
                ));
            }
        }
        assert(one.last() == other.last()) by {
            one_init.lemma_filter_push(one.last(), named);
            other_init.lemma_filter_push(other.last(), named);
            assert(one_init.filter(named).push(one.last()).last() == one.last());
        }
        lemma_drop_last_keeps_order(one);
        lemma_drop_last_keeps_order(other);
        lemma_ordered_arrangement_unique(one_init, other_init);
    }
}

/// The canonical arrangement is the only arrangement of a document that is
/// ordered by name and keeps, for every name, the entries of that name in
/// their order.
pub proof fn lemma_canonical_arrangement_unique(
    apps: Seq<ApplicationConfigurationView>,
    arranged: Seq<ApplicationConfigurationView>,
)
    requires
        ordered_by_name(arranged),
        forall|name: Seq<char>| entries_named(arranged, name) == entries_named(apps, name),
    ensures
        arranged == sorted_by_name(apps),
{
    lemma_sorted_is_ordered(apps);
    assert forall|name: Seq<char>|
        entries_named(arranged, name) == entries_named(sorted_by_name(apps), name) by {
        lemma_sorted_is_stable(apps, name);
    }
    lemma_ordered_arrangement_unique(arranged, sorted_by_name(apps));
}

/// Views commute with insertion.
proof fn lemma_document_view_insert(
    apps: Seq<ApplicationConfiguration>,
    pos: int,
    app: ApplicationConfiguration,
)
    requires
        0 <= pos <= apps.len(),
    ensures
        document_view(apps.insert(pos, app)) == document_view(apps).insert(pos, app@),
{
}

/// Arranges a document canonically.
pub fn sort_by_name(apps: Vec<ApplicationConfiguration>) -> (sorted: Vec<ApplicationConfiguration>)
    ensures
        document_view(sorted@) == sorted_by_name(document_view(apps@)),
{
    let ghost all = apps@;
    let mut sorted: Vec<ApplicationConfiguration> = Vec::new();
    for app in it: apps
        invariant
            it.seq() == all,
            document_view(sorted@) == sorted_by_name(document_view(all.take(it.index() as int))),
    {
        let ghost done = document_view(sorted@);
        let mut pos: usize = sorted.len();
        while pos > 0 && !name_precedes(sorted[pos - 1].name.as_str(), app.name.as_str())
            invariant
                pos <= sorted.len(),
                done == document_view(sorted@),
                forall|j: int|
                    pos <= j < done.len() ==> !name_le((#[trigger] done[j]).name, app@.name),
            decreases pos,
        {
            pos -= 1;
        }
        proof {
            lemma_insertion_point_unique(done, app@.name, pos as int);
            lemma_document_view_insert(sorted@, pos as int, app);
            let next = all.take(it.index() + 1);
            assert(document_view(next).drop_last() =~= document_view(all.take(it.index() as int)));
        }
        sorted.insert(pos, app);
    }
    assert(all.take(all.len() as int) =~= all);
    sorted
}

} // verus!
