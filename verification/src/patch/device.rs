//! The device description: an ordered list of named peripherals.
//!
//! Only what patching reads or writes is held here. The register layout of a
//! peripheral is carried as a key into a store that the caller owns.

use crate::patch::text::same_text;
use vstd::prelude::*;

verus! {

/// An interrupt line of a peripheral.
#[derive(Debug, PartialEq, Eq)]
pub struct Interrupt {
    pub name: String,
    pub description: Option<String>,
    pub value: u32,
}

/// What an [`Interrupt`] holds, as a mathematical value.
pub struct InterruptView {
    pub name: Seq<char>,
    pub description: Option<Seq<char>>,
    pub value: u32,
}

impl View for Interrupt {
    type V = InterruptView;

    open spec fn view(&self) -> InterruptView {
        InterruptView {
            name: self.name@,
            description: match self.description {
                Some(text) => Some(text@),
                None => None,
            },
            value: self.value,
        }
    }
}

impl Clone for Interrupt {
    fn clone(&self) -> (copy: Interrupt)
        ensures
            copy@ == self@,
    {
        let description = match &self.description {
            Some(text) => Some(text.clone()),
            None => None,
        };
        Interrupt { name: self.name.clone(), description, value: self.value }
    }
}

/// The views of a list of interrupts, in order.
pub open spec fn interrupt_views(lines: Seq<Interrupt>) -> Seq<InterruptView> {
    lines.map_values(|line: Interrupt| line@)
}

/// A copy of a list of interrupts.
pub fn clone_interrupts(lines: &Vec<Interrupt>) -> (copy: Vec<Interrupt>)
    ensures
        interrupt_views(copy@) == interrupt_views(lines@),
{
    let mut copy: Vec<Interrupt> = Vec::new();
    let mut i: usize = 0;
    while i < lines.len()
        invariant
            i <= lines.len(),
            copy.len() == i,
            forall|j: int| 0 <= j < i ==> copy[j]@ == lines[j]@,
        decreases lines.len() - i,
    {
        copy.push(lines[i].clone());
        i += 1;
    }
    copy
}

/// A named unit of the device.
#[derive(Debug, PartialEq, Eq)]
pub struct Peripheral {
    pub name: String,
    pub base_address: u64,
    pub interrupt: Vec<Interrupt>,
    /// Key of the register layout in the caller's store. Two peripherals have
    /// the same registers exactly when their keys are equal.
    pub registers: u64,
}

/// What a [`Peripheral`] holds, as a mathematical value.
pub struct PeripheralView {
    pub name: Seq<char>,
    pub base_address: u64,
    pub interrupt: Seq<InterruptView>,
    pub registers: u64,
}

impl View for Peripheral {
    type V = PeripheralView;

    open spec fn view(&self) -> PeripheralView {
        PeripheralView {
            name: self.name@,
            base_address: self.base_address,
            interrupt: interrupt_views(self.interrupt@),
            registers: self.registers,
        }
    }
}

impl Clone for Peripheral {
    fn clone(&self) -> (copy: Peripheral)
        ensures
            copy@ == self@,
    {
        Peripheral {
            name: self.name.clone(),
            base_address: self.base_address,
            interrupt: clone_interrupts(&self.interrupt),
            registers: self.registers,
        }
    }
}

/// The view of a peripheral that may be missing.
pub open spec fn optional_view(p: Option<Peripheral>) -> Option<PeripheralView> {
    match p {
        Some(p) => Some(p@),
        None => None,
    }
}

/// The views of a list of peripherals, in order.
pub open spec fn peripheral_views(list: Seq<Peripheral>) -> Seq<PeripheralView> {
    list.map_values(|p: Peripheral| p@)
}

/// The device description that is patched.
#[derive(Debug, PartialEq, Eq)]
pub struct Device {
    pub peripherals: Vec<Peripheral>,
}

impl View for Device {
    type V = Seq<PeripheralView>;

    open spec fn view(&self) -> Seq<PeripheralView> {
        peripheral_views(self.peripherals@)
    }
}

/// The peripherals of `doc` that are called `name`, in order.
pub open spec fn named(doc: Seq<PeripheralView>, name: Seq<char>) -> Seq<PeripheralView> {
    doc.filter(|p: PeripheralView| p.name == name)
}

/// The peripheral called `name`, where `doc` holds exactly one of that name.
pub open spec fn find(doc: Seq<PeripheralView>, name: Seq<char>) -> Option<PeripheralView> {
    let hits = named(doc, name);
    if hits.len() == 1 {
        Some(hits[0])
    } else {
        None
    }
}

/// Names are unique: no two peripherals of `doc` share one.
pub open spec fn unique_names(doc: Seq<PeripheralView>) -> bool {
    forall|i: int, j: int| 0 <= i < j < doc.len() ==> doc[i].name != doc[j].name
}

/// A copy of the one peripheral of `svd` called `peripheral_name`; nothing
/// where none or several carry that name.
pub fn get_peripheral(svd: &Device, peripheral_name: &str) -> (found: Option<Peripheral>)
    ensures
        optional_view(found) == find(svd@, peripheral_name@),
{
    let ghost wanted = |p: PeripheralView| p.name == peripheral_name@;
    let mut hits: usize = 0;
    let mut last: usize = 0;
    let mut i: usize = 0;
    while i < svd.peripherals.len()
        invariant
            i <= svd.peripherals.len(),
            hits <= i,
            wanted == |p: PeripheralView| p.name == peripheral_name@,
            svd@.take(i as int).filter(wanted).len() == hits,
            hits > 0 ==> last < i && svd@.take(i as int).filter(wanted).last() == svd@[last as int],
        decreases svd.peripherals.len() - i,
    {
        proof {
            assert(svd@.take(i + 1) =~= svd@.take(i as int).push(svd@[i as int]));
            svd@.take(i as int).lemma_filter_push(svd@[i as int], wanted);
        }
        if same_text(svd.peripherals[i].name.as_str(), peripheral_name) {
            hits += 1;
            last = i;
        }
        i += 1;
    }
    assert(svd@.take(i as int) =~= svd@);
    if hits == 1 {
        Some(svd.peripherals[last].clone())
    } else {
        None
    }
}

} // verus!
