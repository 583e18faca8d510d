//! The patch engine: deletes peripherals, then copies peripherals.

use crate::patch::commands::text_views;
use crate::patch::commands::YamlBody;
use crate::patch::device::find;
use crate::patch::device::unique_names;
use crate::patch::device::get_peripheral;
use crate::patch::device::optional_view;
use crate::patch::device::peripheral_views;
use crate::patch::device::Device;
use crate::patch::device::Interrupt;
use crate::patch::device::InterruptView;
use crate::patch::device::Peripheral;
use crate::patch::device::PeripheralView;
use crate::patch::laws::delete_keeps_names_unique;
use crate::patch::laws::run_keeps_names_unique;
use crate::patch::reference::parse_reference;
use crate::patch::reference::reference_of;
use crate::patch::reference::ReferenceView;
use crate::patch::reference::SourceReference;
use crate::patch::text::same_text;
use vstd::prelude::*;

verus! {

/// `doc` without the peripherals whose name is among `names`; the others keep
/// their order.
pub open spec fn without(doc: Seq<PeripheralView>, names: Seq<Seq<char>>) -> Seq<PeripheralView> {
    doc.filter(|p: PeripheralView| !names.contains(p.name))
}

/// The peripheral that a copy puts under `dest`: the registers of `template`,
/// with the address and the interrupts of the peripheral that held the name
/// before. Where none did, the address is that of `template` and there are no
/// interrupts.
pub open spec fn merged(
    template: PeripheralView,
    dest: Seq<char>,
    existing: Option<PeripheralView>,
) -> PeripheralView {
    match existing {
        Some(slot) => PeripheralView {
            name: dest,
            base_address: slot.base_address,
            interrupt: slot.interrupt,
            registers: template.registers,
        },
        None => PeripheralView {
            name: dest,
            base_address: template.base_address,
            interrupt: Seq::empty(),
            registers: template.registers,
        },
    }
}

/// `doc` after `template` was copied to the name `dest`. The peripheral that
/// held the name leaves, and the copy is appended.
pub open spec fn copied(doc: Seq<PeripheralView>, dest: Seq<char>, template: PeripheralView) -> Seq<
    PeripheralView,
> {
    let existing = find(doc, dest);
    let rest = if existing is Some {
        without(doc, seq![dest])
    } else {
        doc
    };
    rest.push(merged(template, dest, existing))
}

/// Whether one of `names` is `name`.
pub fn contains_name(names: &Vec<String>, name: &str) -> (found: bool)
    ensures
        found == text_views(names@).contains(name@),
{
    let mut i: usize = 0;
    while i < names.len()
        invariant
            i <= names.len(),
            forall|j: int| 0 <= j < i ==> names[j]@ != name@,
        decreases names.len() - i,
    {
        if same_text(names[i].as_str(), name) {
            assert(text_views(names@)[i as int] == name@);
            return true;
        }
        i += 1;
    }
    false
}

/// Removes from `list` every peripheral whose name is among `names`.
pub fn remove_named(list: &mut Vec<Peripheral>, names: &Vec<String>)
    ensures
        peripheral_views(final(list)@) == without(peripheral_views(old(list)@), text_views(names@)),
{
    let ghost before = peripheral_views(list@);
    let ghost unwanted = text_views(names@);
    let ghost stays = |p: PeripheralView| !unwanted.contains(p.name);
    let mut all: Vec<Peripheral> = Vec::new();
    std::mem::swap(&mut all, list);
    for p in it: all
        invariant
            peripheral_views(it.seq()) == before,
            unwanted == text_views(names@),
            stays == |p: PeripheralView| !unwanted.contains(p.name),
            peripheral_views(list@) == before.take(it.index() as int).filter(stays),
    {
        proof {
            let done = before.take(it.index() as int);
            assert(before.take(it.index() + 1) =~= done.push(p@));
            done.lemma_filter_push(p@, stays);
            list@.lemma_push_map_commute(|p: Peripheral| p@, p);
        }
        if !contains_name(names, p.name.as_str()) {
            list.push(p);
        }
    }
    assert(before.take(before.len() as int) =~= before);
}

/// Builds the peripheral that a copy puts under `dest`: `template` renamed,
/// bound to the address and the interrupts of `existing` where there is one,
/// and without interrupts where there is none.
pub fn merge_peripheral(template: Peripheral, dest: &str, existing: Option<Peripheral>) -> (result:
    Peripheral)
    ensures
        result@ == merged(template@, dest@, optional_view(existing)),
{
    match existing {
        Some(slot) => Peripheral {
            name: dest.to_owned(),
            base_address: slot.base_address,
            interrupt: slot.interrupt,
            registers: template.registers,
        },
        None => {
            let none: Vec<Interrupt> = Vec::new();
            assert(none@.map_values(|line: Interrupt| line@) =~= Seq::<InterruptView>::empty());
            Peripheral {
                name: dest.to_owned(),
                base_address: template.base_address,
                interrupt: none,
                registers: template.registers,
            }
        },
    }
}

/// Copies `template` into `svd` under the name `dest`.
pub fn insert_copy(svd: &mut Device, dest: &str, template: Peripheral)
    ensures
        final(svd)@ == copied(old(svd)@, dest@, template@),
{
    let existing = get_peripheral(svd, dest);
    if existing.is_some() {
        let mut names: Vec<String> = Vec::new();
        names.push(dest.to_owned());
        assert(text_views(names@) =~= seq![dest@]);
        remove_named(&mut svd.peripherals, &names);
    }
    let copy = merge_peripheral(template, dest, existing);
    proof {
        svd.peripherals@.lemma_push_map_commute(|p: Peripheral| p@, copy);
    }
    svd.peripherals.push(copy);
}

/// Why a patch run was given up.
#[derive(Debug, PartialEq, Eq)]
pub enum PatchError {
    /// A source reference holds more than one separator.
    MalformedReference { reference: String },
    /// No peripheral, or more than one, carries the name that a source
    /// reference gives.
    PeripheralNotFound { name: String },
    /// The device description that a source reference points to could not be
    /// had.
    DocumentUnavailable { path: String },
}

/// What a [`PatchError`] holds, as a mathematical value.
pub enum PatchErrorView {
    MalformedReference { reference: Seq<char> },
    PeripheralNotFound { name: Seq<char> },
    DocumentUnavailable { path: Seq<char> },
}

impl View for PatchError {
    type V = PatchErrorView;

    open spec fn view(&self) -> PatchErrorView {
        match self {
            PatchError::MalformedReference { reference } => PatchErrorView::MalformedReference {
                reference: reference@,
            },
            PatchError::PeripheralNotFound { name } => PatchErrorView::PeripheralNotFound {
                name: name@,
            },
            PatchError::DocumentUnavailable { path } => PatchErrorView::DocumentUnavailable {
                path: path@,
            },
        }
    }
}

/// How far a patch run has come.
#[derive(Debug, PartialEq, Eq)]
pub enum Progress {
    /// Every command was applied.
    Finished,
    /// The copy command number `at` takes its peripheral from the device
    /// description stored at `path`. The run goes on with
    /// [`Patcher::resume`], once the caller has read that description.
    NeedsDocument { at: usize, path: String },
}

/// What a [`Progress`] holds, as a mathematical value.
pub enum ProgressView {
    Finished,
    NeedsDocument { at: int, path: Seq<char> },
}

impl View for Progress {
    type V = ProgressView;

    open spec fn view(&self) -> ProgressView {
        match self {
            Progress::Finished => ProgressView::Finished,
            Progress::NeedsDocument { at, path } => ProgressView::NeedsDocument {
                at: *at as int,
                path: path@,
            },
        }
    }
}

/// The view of the result of a patch run.
pub open spec fn outcome_view(outcome: Result<Progress, PatchError>) -> Result<
    ProgressView,
    PatchErrorView,
> {
    match outcome {
        Ok(progress) => Ok(progress@),
        Err(error) => Err(error@),
    }
}

/// What the caller hands to a run: nothing, or the result of reading a device
/// description, which is the description or nothing where reading failed.
pub open spec fn supplied_view(supplied: Option<Option<Device>>) -> Option<
    Option<Seq<PeripheralView>>,
> {
    match supplied {
        None => None,
        Some(None) => Some(None),
        Some(Some(device)) => Some(Some(device@)),
    }
}

/// The device and the result after the copy commands from number `at` on were
/// applied to `doc` in their order.
///
/// A command whose reference is local takes its peripheral from `doc` as the
/// commands before it left it. The first command whose reference is external
/// takes it from `supplied`; where nothing was supplied the run stops there
/// and asks for the description. The first command that fails ends the run,
/// and `doc` stays as the commands before it left it.
pub open spec fn copy_run(
    doc: Seq<PeripheralView>,
    copies: Seq<(Seq<char>, Seq<char>)>,
    at: int,
    supplied: Option<Option<Seq<PeripheralView>>>,
) -> (Seq<PeripheralView>, Result<ProgressView, PatchErrorView>)
    decreases copies.len() - at,
{
    if at < 0 || at >= copies.len() {
        (doc, Ok(ProgressView::Finished))
    } else {
        let (dest, from) = copies[at];
        match reference_of(from) {
            None => (doc, Err(PatchErrorView::MalformedReference { reference: from })),
            Some(ReferenceView::Local { name }) => match find(doc, name) {
                None => (doc, Err(PatchErrorView::PeripheralNotFound { name })),
                Some(template) => copy_run(copied(doc, dest, template), copies, at + 1, supplied),
            },
            Some(ReferenceView::External { path, name }) => match supplied {
                None => (doc, Ok(ProgressView::NeedsDocument { at, path })),
                Some(None) => (doc, Err(PatchErrorView::DocumentUnavailable { path })),
                Some(Some(other)) => match find(other, name) {
                    None => (doc, Err(PatchErrorView::PeripheralNotFound { name })),
                    Some(template) => copy_run(copied(doc, dest, template), copies, at + 1, None),
                },
            },
        }
    }
}

/// Applies the commands of a patch document to a device description.
pub struct Patcher {
    pub svd: Device,
    pub yaml: YamlBody,
}

impl Patcher {
    /// Runs the patch: deletes, then copies, in that order, so that a copy
    /// command sees the device as the deletions left it.
    ///
    /// The run stops at the first copy command that takes its peripheral from
    /// another device description, and says which one it needs.
    pub fn process_device(&mut self) -> (outcome: Result<Progress, PatchError>)
        ensures
            final(self).yaml == old(self).yaml,
            (final(self).svd@, outcome_view(outcome)) == copy_run(
                without(old(self).svd@, old(self).yaml@.delete),
                old(self).yaml@.copy,
                0,
                None,
            ),
            unique_names(old(self).svd@) ==> unique_names(final(self).svd@),
    {
        self.delete_peripherals();
        self.copy_peripherals()
    }

    /// Deletes the peripherals that the commands name. A name that no
    /// peripheral carries is passed over.
    pub fn delete_peripherals(&mut self)
        ensures
            final(self).svd@ == without(old(self).svd@, old(self).yaml@.delete),
            final(self).yaml == old(self).yaml,
            unique_names(old(self).svd@) ==> unique_names(final(self).svd@),
    {
        proof {
            if unique_names(self.svd@) {
                delete_keeps_names_unique(self.svd@, self.yaml@.delete);
            }
        }
        remove_named(&mut self.svd.peripherals, &self.yaml.commands.delete);
    }

    /// Applies the copy commands in their order, up to the first one that
    /// takes its peripheral from another device description.
    pub fn copy_peripherals(&mut self) -> (outcome: Result<Progress, PatchError>)
        ensures
            final(self).yaml == old(self).yaml,
            (final(self).svd@, outcome_view(outcome)) == copy_run(
                old(self).svd@,
                old(self).yaml@.copy,
                0,
                None,
            ),
            unique_names(old(self).svd@) ==> unique_names(final(self).svd@),
    {
        self.copy_from(0, None)
    }

    /// Goes on with a run that stopped at the copy command number `at`.
    /// `document` is the device description that the command asked for, or
    /// nothing where it could not be read, which ends the run.
    pub fn resume(&mut self, at: usize, document: Option<Device>) -> (outcome: Result<
        Progress,
        PatchError,
    >)
        ensures
            final(self).yaml == old(self).yaml,
            (final(self).svd@, outcome_view(outcome)) == copy_run(
                old(self).svd@,
                old(self).yaml@.copy,
                at as int,
                supplied_view(Some(document)),
            ),
            unique_names(old(self).svd@) ==> unique_names(final(self).svd@),
    {
        self.copy_from(at, Some(document))
    }

    fn copy_from(&mut self, start: usize, supplied: Option<Option<Device>>) -> (outcome: Result<
        Progress,
        PatchError,
    >)
        ensures
            final(self).yaml == old(self).yaml,
            (final(self).svd@, outcome_view(outcome)) == copy_run(
                old(self).svd@,
                old(self).yaml@.copy,
                start as int,
                supplied_view(supplied),
            ),
            unique_names(old(self).svd@) ==> unique_names(final(self).svd@),
    {
        proof {
            if unique_names(self.svd@) {
                run_keeps_names_unique(
                    self.svd@,
                    self.yaml@.copy,
                    start as int,
                    supplied_view(supplied),
                );
            }
        }
        let ghost copies = self.yaml@.copy;
        let ghost goal = copy_run(self.svd@, copies, start as int, supplied_view(supplied));
        let mut at = start;
        let mut pending = supplied;
        while at < self.yaml.commands.copy.len()
            invariant
                self.yaml == old(self).yaml,
                copies == self.yaml@.copy,
                goal == copy_run(
                    old(self).svd@,
                    old(self).yaml@.copy,
                    start as int,
                    supplied_view(supplied),
                ),
                unique_names(old(self).svd@) ==> unique_names(goal.0),
                copy_run(self.svd@, copies, at as int, supplied_view(pending)) == goal,
            decreases self.yaml.commands.copy.len() - at,
        {
            let command = &self.yaml.commands.copy[at];
            let template = match parse_reference(command.1.from.as_str()) {
                None => {
                    return Err(PatchError::MalformedReference { reference: command.1.from.clone() });
                },
                Some(SourceReference::Local { name }) => {
                    match get_peripheral(&self.svd, name.as_str()) {
                        Some(template) => template,
                        None => {
                            return Err(PatchError::PeripheralNotFound { name });
                        },
                    }
                },
                Some(SourceReference::External { path, name }) => {
                    let handed = pending;
                    pending = None;
                    match handed {
                        None => {
                            return Ok(Progress::NeedsDocument { at, path });
                        },
                        Some(None) => {
                            return Err(PatchError::DocumentUnavailable { path });
                        },
                        Some(Some(other)) => match get_peripheral(&other, name.as_str()) {
                            Some(template) => template,
                            None => {
                                return Err(PatchError::PeripheralNotFound { name });
                            },
                        },
                    }
                },
            };
            insert_copy(&mut self.svd, command.0.as_str(), template);
            at += 1;
        }
        Ok(Progress::Finished)
    }
}

} // verus!
