//! What holds of deleting and copying, whatever the device and the commands.

use crate::patch::device::find;
use crate::patch::device::named;
use crate::patch::device::unique_names;
use crate::patch::device::PeripheralView;
use crate::patch::patcher::copied;
use crate::patch::patcher::copy_run;
use crate::patch::patcher::merged;
use crate::patch::patcher::without;
use crate::patch::patcher::PatchErrorView;
use crate::patch::patcher::ProgressView;
use crate::patch::reference::reference_of;
use crate::patch::reference::separators;
use crate::patch::reference::ReferenceView;
use crate::patch::sequences::lemma_filter_elements;
use crate::patch::sequences::lemma_filter_keeps_all;
use crate::patch::sequences::lemma_filter_keeps_none;
use crate::patch::sequences::lemma_filter_narrower;
use crate::patch::sequences::lemma_filter_split;
use vstd::prelude::*;

verus! {

/// Deleting names that no peripheral carries changes nothing.
pub proof fn delete_of_absent_names(doc: Seq<PeripheralView>, names: Seq<Seq<char>>)
    requires
        forall|i: int| 0 <= i < doc.len() ==> !names.contains(#[trigger] doc[i].name),
    ensures
        without(doc, names) == doc,
{
    lemma_filter_keeps_all(doc, |p: PeripheralView| !names.contains(p.name));
}

/// What is deleted depends on which names are given, not on their order or
/// on how often one is given.
pub proof fn delete_ignores_order(
    doc: Seq<PeripheralView>,
    names: Seq<Seq<char>>,
    others: Seq<Seq<char>>,
)
    requires
        forall|name: Seq<char>| names.contains(name) <==> others.contains(name),
    ensures
        without(doc, names) == without(doc, others),
    decreases doc.len(),
{
    let by_names = |p: PeripheralView| !names.contains(p.name);
    let by_others = |p: PeripheralView| !others.contains(p.name);
    if doc.len() == 0 {
        doc.lemma_filter_len(by_names);
        doc.lemma_filter_len(by_others);
    } else {
        let front = doc.drop_last();
        assert(front.push(doc.last()) =~= doc);
        delete_ignores_order(front, names, others);
        front.lemma_filter_push(doc.last(), by_names);
        front.lemma_filter_push(doc.last(), by_others);
    }
}

/// Deleting a second time changes nothing.
pub proof fn delete_twice(doc: Seq<PeripheralView>, names: Seq<Seq<char>>)
    ensures
        without(without(doc, names), names) == without(doc, names),
{
    let stays = |p: PeripheralView| !names.contains(p.name);
    lemma_filter_elements(doc, stays);
    lemma_filter_keeps_all(doc.filter(stays), stays);
}

/// After a deletion no peripheral carries a deleted name, and every
/// peripheral with another name is still there.
pub proof fn delete_removes_the_named(doc: Seq<PeripheralView>, names: Seq<Seq<char>>)
    ensures
        forall|i: int|
            0 <= i < without(doc, names).len() ==> !names.contains(
                #[trigger] without(doc, names)[i].name,
            ),
        forall|i: int|
            0 <= i < doc.len() && !names.contains(doc[i].name) ==> without(doc, names).contains(
                #[trigger] doc[i],
            ),
{
    let stays = |p: PeripheralView| !names.contains(p.name);
    lemma_filter_elements(doc, stays);
    assert forall|i: int| 0 <= i < doc.len() && !names.contains(doc[i].name) implies without(
        doc,
        names,
    ).contains(#[trigger] doc[i]) by {
        doc.lemma_filter_contains(stays, i);
    }
}

/// No peripheral is called `dest` once the name `dest` was deleted.
proof fn lemma_name_is_free(doc: Seq<PeripheralView>, dest: Seq<char>)
    ensures
        named(without(doc, seq![dest]), dest).len() == 0,
        forall|i: int|
            0 <= i < without(doc, seq![dest]).len() ==> (#[trigger] without(
                doc,
                seq![dest],
            )[i]).name != dest,
{
    let rest = without(doc, seq![dest]);
    lemma_filter_elements(doc, |p: PeripheralView| !seq![dest].contains(p.name));
    assert forall|i: int| 0 <= i < rest.len() implies (#[trigger] rest[i]).name != dest by {
        assert(seq![dest][0] == dest);
    }
    lemma_filter_keeps_none(rest, |p: PeripheralView| p.name == dest);
}

/// Copying onto a name that exactly one peripheral holds: the device keeps
/// its size, and the peripheral under that name now has the registers of the
/// source, with the address and the interrupts that the name had before.
pub proof fn copy_onto_existing_name(
    doc: Seq<PeripheralView>,
    dest: Seq<char>,
    template: PeripheralView,
)
    requires
        find(doc, dest) is Some,
    ensures
        copied(doc, dest, template).len() == doc.len(),
        find(copied(doc, dest, template), dest) == Some(
            PeripheralView {
                name: dest,
                base_address: find(doc, dest)->0.base_address,
                interrupt: find(doc, dest)->0.interrupt,
                registers: template.registers,
            },
        ),
{
    let rest = without(doc, seq![dest]);
    let copy = merged(template, dest, find(doc, dest));
    let is_dest = |p: PeripheralView| p.name == dest;
    let is_other = |p: PeripheralView| !seq![dest].contains(p.name);
    assert forall|p: PeripheralView| #[trigger] is_other(p) == !is_dest(p) by {
        if p.name == dest {
            assert(seq![dest][0] == p.name);
        }
    }
    lemma_filter_split(doc, is_dest, is_other);
    lemma_name_is_free(doc, dest);
    rest.lemma_filter_push(copy, is_dest);
}

/// Copying to a name that no peripheral holds: the device grows by one, and
/// the new peripheral has the registers and the address of the source and no
/// interrupts.
pub proof fn copy_to_new_name(doc: Seq<PeripheralView>, dest: Seq<char>, template: PeripheralView)
    requires
        named(doc, dest).len() == 0,
    ensures
        copied(doc, dest, template).len() == doc.len() + 1,
        find(copied(doc, dest, template), dest) == Some(
            PeripheralView {
                name: dest,
                base_address: template.base_address,
                interrupt: Seq::empty(),
                registers: template.registers,
            },
        ),
{
    let copy = merged(template, dest, None);
    doc.lemma_filter_push(copy, |p: PeripheralView| p.name == dest);
}

/// A copy changes nothing under any other name.
pub proof fn copy_leaves_other_names(
    doc: Seq<PeripheralView>,
    dest: Seq<char>,
    template: PeripheralView,
    other: Seq<char>,
)
    requires
        other != dest,
    ensures
        named(copied(doc, dest, template), other) == named(doc, other),
{
    let existing = find(doc, dest);
    let copy = merged(template, dest, existing);
    let is_other = |p: PeripheralView| p.name == other;
    let rest = if existing is Some {
        without(doc, seq![dest])
    } else {
        doc
    };
    if existing is Some {
        let not_dest = |p: PeripheralView| !seq![dest].contains(p.name);
        assert forall|p: PeripheralView| #[trigger] is_other(p) implies not_dest(p) by {
            assert(seq![dest].contains(p.name) ==> p.name == dest);
        }
        lemma_filter_narrower(doc, not_dest, is_other);
    }
    rest.lemma_filter_push(copy, is_other);
}

/// Where names are unique, at most one peripheral carries a given name.
proof fn lemma_unique_names_hit_once(doc: Seq<PeripheralView>, name: Seq<char>)
    requires
        unique_names(doc),
    ensures
        named(doc, name).len() <= 1,
    decreases doc.len(),
{
    let is_name = |p: PeripheralView| p.name == name;
    if doc.len() == 0 {
        lemma_filter_keeps_none(doc, is_name);
    } else {
        let front = doc.drop_last();
        assert(front.push(doc.last()) =~= doc);
        assert(unique_names(front));
        lemma_unique_names_hit_once(front, name);
        front.lemma_filter_push(doc.last(), is_name);
        if doc.last().name == name {
            assert forall|i: int| 0 <= i < front.len() implies !is_name(#[trigger] front[i]) by {
                assert(front[i].name != doc.last().name);
            }
            lemma_filter_keeps_none(front, is_name);
        }
    }
}

/// A filter keeps names unique.
proof fn lemma_filter_keeps_names_unique(
    doc: Seq<PeripheralView>,
    pred: spec_fn(PeripheralView) -> bool,
)
    requires
        unique_names(doc),
    ensures
        unique_names(doc.filter(pred)),
    decreases doc.len(),
{
    if doc.len() == 0 {
        doc.lemma_filter_len(pred);
    } else {
        let front = doc.drop_last();
        assert(front.push(doc.last()) =~= doc);
        assert(unique_names(front));
        lemma_filter_keeps_names_unique(front, pred);
        front.lemma_filter_push(doc.last(), pred);
        lemma_filter_elements(front, pred);
        let kept = front.filter(pred);
        if pred(doc.last()) {
            assert forall|i: int| 0 <= i < kept.len() implies (#[trigger] kept[i]).name
                != doc.last().name by {
                let k = choose|k: int| 0 <= k < front.len() && front[k] == kept[i];
                assert(doc[k].name != doc[doc.len() - 1].name);
            }
        }
    }
}

/// Deleting keeps the names of the peripherals unique.
pub proof fn delete_keeps_names_unique(doc: Seq<PeripheralView>, names: Seq<Seq<char>>)
    requires
        unique_names(doc),
    ensures
        unique_names(without(doc, names)),
{
    lemma_filter_keeps_names_unique(doc, |p: PeripheralView| !names.contains(p.name));
}

/// A copy keeps the names of the peripherals unique.
pub proof fn copy_keeps_names_unique(
    doc: Seq<PeripheralView>,
    dest: Seq<char>,
    template: PeripheralView,
)
    requires
        unique_names(doc),
    ensures
        unique_names(copied(doc, dest, template)),
{
    let existing = find(doc, dest);
    let copy = merged(template, dest, existing);
    let rest = if existing is Some {
        without(doc, seq![dest])
    } else {
        doc
    };
    if existing is Some {
        lemma_filter_keeps_names_unique(doc, |p: PeripheralView| !seq![dest].contains(p.name));
        lemma_name_is_free(doc, dest);
    } else {
        lemma_unique_names_hit_once(doc, dest);
        assert forall|i: int| 0 <= i < doc.len() implies (#[trigger] doc[i]).name != dest by {
            if doc[i].name == dest {
                doc.lemma_filter_contains(|p: PeripheralView| p.name == dest, i);
            }
        }
    }
}

/// A run of copy commands keeps the names of the peripherals unique, however
/// it ends.
pub proof fn run_keeps_names_unique(
    doc: Seq<PeripheralView>,
    copies: Seq<(Seq<char>, Seq<char>)>,
    at: int,
    supplied: Option<Option<Seq<PeripheralView>>>,
)
    requires
        unique_names(doc),
    ensures
        unique_names(copy_run(doc, copies, at, supplied).0),
    decreases copies.len() - at,
{
    if 0 <= at < copies.len() {
        let (dest, from) = copies[at];
        match reference_of(from) {
            None => {},
            Some(ReferenceView::Local { name }) => {
                if let Some(template) = find(doc, name) {
                    copy_keeps_names_unique(doc, dest, template);
                    run_keeps_names_unique(copied(doc, dest, template), copies, at + 1, supplied);
                }
            },
            Some(ReferenceView::External { path, name }) => {
                if let Some(Some(other)) = supplied {
                    if let Some(template) = find(other, name) {
                        copy_keeps_names_unique(doc, dest, template);
                        run_keeps_names_unique(copied(doc, dest, template), copies, at + 1, None);
                    }
                }
            },
        }
    }
}

/// A reference with more than one separator ends the run at its command,
/// whatever the device holds and whatever was supplied: nothing is looked up,
/// and the device stays as the commands before left it.
pub proof fn malformed_reference_ends_run(
    doc: Seq<PeripheralView>,
    copies: Seq<(Seq<char>, Seq<char>)>,
    at: int,
    supplied: Option<Option<Seq<PeripheralView>>>,
)
    requires
        0 <= at < copies.len(),
        separators(copies[at].1) > 1,
    ensures
        copy_run(doc, copies, at, supplied) == (
            doc,
            Err::<ProgressView, PatchErrorView>(
                PatchErrorView::MalformedReference { reference: copies[at].1 },
            ),
        ),
{
}

/// A command whose reference is local takes its peripheral from the device
/// as the commands before it left it, whatever was supplied. Where the device
/// does not hold the name exactly once, the run ends with an error that
/// carries the name.
pub proof fn local_reference_reads_device(
    doc: Seq<PeripheralView>,
    copies: Seq<(Seq<char>, Seq<char>)>,
    at: int,
    supplied: Option<Option<Seq<PeripheralView>>>,
    name: Seq<char>,
)
    requires
        0 <= at < copies.len(),
        reference_of(copies[at].1) == Some(ReferenceView::Local { name }),
    ensures
        find(doc, name) is None ==> copy_run(doc, copies, at, supplied) == (
            doc,
            Err::<ProgressView, PatchErrorView>(PatchErrorView::PeripheralNotFound { name }),
        ),
        find(doc, name) is Some ==> copy_run(doc, copies, at, supplied) == copy_run(
            copied(doc, copies[at].0, find(doc, name)->0),
            copies,
            at + 1,
            supplied,
        ),
{
}

/// Past the last command the run is finished and the device is left as it
/// is.
pub proof fn run_past_the_last_command(
    doc: Seq<PeripheralView>,
    copies: Seq<(Seq<char>, Seq<char>)>,
    at: int,
    supplied: Option<Option<Seq<PeripheralView>>>,
)
    requires
        at >= copies.len(),
    ensures
        copy_run(doc, copies, at, supplied) == (
            doc,
            Ok::<ProgressView, PatchErrorView>(ProgressView::Finished),
        ),
{
}

/// A command whose reference names another device description takes its
/// peripheral from the description that was supplied. Where that description
/// does not hold the name exactly once, the run ends with an error that
/// carries the name. Where nothing was supplied, the run asks for the
/// description by its path.
pub proof fn external_reference_reads_supplied(
    doc: Seq<PeripheralView>,
    copies: Seq<(Seq<char>, Seq<char>)>,
    at: int,
    other: Seq<PeripheralView>,
    path: Seq<char>,
    name: Seq<char>,
)
    requires
        0 <= at < copies.len(),
        reference_of(copies[at].1) == Some(ReferenceView::External { path, name }),
    ensures
        copy_run(doc, copies, at, None) == (
            doc,
            Ok::<ProgressView, PatchErrorView>(ProgressView::NeedsDocument { at, path }),
        ),
        copy_run(doc, copies, at, Some(None)) == (
            doc,
            Err::<ProgressView, PatchErrorView>(PatchErrorView::DocumentUnavailable { path }),
        ),
        find(other, name) is None ==> copy_run(doc, copies, at, Some(Some(other))) == (
            doc,
            Err::<ProgressView, PatchErrorView>(PatchErrorView::PeripheralNotFound { name }),
        ),
        find(other, name) is Some ==> copy_run(doc, copies, at, Some(Some(other))) == copy_run(
            copied(doc, copies[at].0, find(other, name)->0),
            copies,
            at + 1,
            None,
        ),
{
}

} // verus!
