use svd_patch::patch::commands::Commands;
use svd_patch::patch::commands::CopySource;
use svd_patch::patch::commands::YamlBody;
use svd_patch::patch::device::get_peripheral;
use svd_patch::patch::device::Device;
use svd_patch::patch::device::Interrupt;
use svd_patch::patch::device::Peripheral;
use svd_patch::patch::patcher::contains_name;
use svd_patch::patch::patcher::insert_copy;
use svd_patch::patch::patcher::merge_peripheral;
use svd_patch::patch::patcher::remove_named;
use svd_patch::patch::patcher::PatchError;
use svd_patch::patch::patcher::Patcher;
use svd_patch::patch::patcher::Progress;
use svd_patch::patch::reference::parse_reference;
use svd_patch::patch::reference::SourceReference;

fn line(value: u32) -> Interrupt {
    Interrupt { name: format!("IRQ{}", value), description: None, value }
}

fn peripheral(name: &str, base_address: u64, interrupts: &[u32], registers: u64) -> Peripheral {
    Peripheral {
        name: name.to_string(),
        base_address,
        interrupt: interrupts.iter().map(|value| line(*value)).collect(),
        registers,
    }
}

fn three_peripherals() -> Device {
    Device {
        peripherals: vec![
            peripheral("ADC1", 0x4001_2000, &[18], 1),
            peripheral("DAC1", 0x100, &[5], 2),
            peripheral("DAC2", 0x200, &[6], 3),
        ],
    }
}

fn commands(delete: &[&str], copy: &[(&str, &str)]) -> YamlBody {
    YamlBody {
        commands: Commands {
            delete: delete.iter().map(|name| name.to_string()).collect(),
            copy: copy
                .iter()
                .map(|(dest, from)| (dest.to_string(), CopySource { from: from.to_string() }))
                .collect(),
        },
    }
}

fn get_patcher(delete: &[&str], copy: &[(&str, &str)]) -> Patcher {
    Patcher { svd: three_peripherals(), yaml: commands(delete, copy) }
}

fn names(device: &Device) -> Vec<String> {
    device.peripherals.iter().map(|p| p.name.clone()).collect()
}

#[test]
fn delete_peripherals() {
    let mut patcher = get_patcher(&["ADC1", "DAC1"], &[]);
    assert_eq!(patcher.svd.peripherals.len(), 3);
    patcher.delete_peripherals();
    assert_eq!(patcher.svd.peripherals.len(), 1);
    let remaining_periph = &patcher.svd.peripherals[0];
    assert_eq!(remaining_periph.name, "DAC2");
}

#[test]
fn copy_peripherals() {
    let mut patcher = get_patcher(&[], &[("DAC2", "DAC1")]);
    assert_eq!(patcher.svd.peripherals.len(), 3);
    let dac1 = get_peripheral(&patcher.svd, "DAC1").unwrap();
    let dac2 = get_peripheral(&patcher.svd, "DAC2").unwrap();
    assert_ne!(dac1.registers, dac2.registers);

    assert_eq!(patcher.copy_peripherals(), Ok(Progress::Finished));
    assert_eq!(patcher.svd.peripherals.len(), 3);

    let dac2 = get_peripheral(&patcher.svd, "DAC2").unwrap();
    assert_eq!(dac1.registers, dac2.registers);
}

#[test]
fn delete_leaves_exactly_the_others() {
    let mut patcher = Patcher {
        svd: Device {
            peripherals: vec![
                peripheral("A", 0x10, &[1], 1),
                peripheral("B", 0x20, &[2], 2),
                peripheral("C", 0x30, &[3], 3),
            ],
        },
        yaml: commands(&["A", "B"], &[]),
    };
    patcher.delete_peripherals();
    assert_eq!(patcher.svd.peripherals, vec![peripheral("C", 0x30, &[3], 3)]);
}

#[test]
fn delete_of_absent_name_changes_nothing() {
    let mut patcher = get_patcher(&["TIM7", ""], &[]);
    patcher.delete_peripherals();
    assert_eq!(patcher.svd, three_peripherals());
}

#[test]
fn delete_twice_is_delete_once() {
    let mut patcher = get_patcher(&["DAC1"], &[]);
    patcher.delete_peripherals();
    let once = names(&patcher.svd);
    patcher.delete_peripherals();
    assert_eq!(names(&patcher.svd), once);
    assert_eq!(once, vec!["ADC1".to_string(), "DAC2".to_string()]);
}

#[test]
fn delete_keeps_the_order() {
    let mut patcher = get_patcher(&["DAC1"], &[]);
    patcher.delete_peripherals();
    assert_eq!(names(&patcher.svd), vec!["ADC1".to_string(), "DAC2".to_string()]);
}

#[test]
fn delete_removes_every_peripheral_of_the_name() {
    let mut list = vec![
        peripheral("A", 1, &[], 1),
        peripheral("B", 2, &[], 2),
        peripheral("A", 3, &[], 3),
    ];
    remove_named(&mut list, &vec!["A".to_string()]);
    assert_eq!(list, vec![peripheral("B", 2, &[], 2)]);
}

#[test]
fn contains_name_compares_whole_names() {
    let list = vec!["DAC1".to_string(), "ADC".to_string()];
    assert!(contains_name(&list, "DAC1"));
    assert!(contains_name(&list, "ADC"));
    assert!(!contains_name(&list, "DAC"));
    assert!(!contains_name(&list, "dac1"));
    assert!(!contains_name(&Vec::new(), "DAC1"));
}

#[test]
fn copy_onto_existing_name_keeps_address_and_interrupts() {
    let mut patcher = Patcher {
        svd: Device {
            peripherals: vec![peripheral("DAC1", 0x100, &[5], 1), peripheral("DAC2", 0x200, &[6], 2)],
        },
        yaml: commands(&[], &[("DAC2", "DAC1")]),
    };
    assert_eq!(patcher.process_device(), Ok(Progress::Finished));
    assert_eq!(patcher.svd.peripherals.len(), 2);
    let dac2 = get_peripheral(&patcher.svd, "DAC2").unwrap();
    assert_eq!(dac2.registers, 1);
    assert_eq!(dac2.base_address, 0x200);
    assert_eq!(dac2.interrupt, vec![line(6)]);
    assert_eq!(
        patcher.svd.peripherals,
        vec![peripheral("DAC1", 0x100, &[5], 1), peripheral("DAC2", 0x200, &[6], 1)]
    );
}

#[test]
fn copy_to_new_name_has_no_interrupts() {
    let mut patcher = get_patcher(&[], &[("DAC3", "DAC1")]);
    assert_eq!(patcher.process_device(), Ok(Progress::Finished));
    assert_eq!(patcher.svd.peripherals.len(), 4);
    let dac3 = get_peripheral(&patcher.svd, "DAC3").unwrap();
    assert_eq!(dac3, peripheral("DAC3", 0x100, &[], 2));
    assert_eq!(patcher.svd.peripherals[3], dac3);
    assert_eq!(get_peripheral(&patcher.svd, "DAC1"), Some(peripheral("DAC1", 0x100, &[5], 2)));
}

#[test]
fn copy_onto_itself_changes_only_the_place() {
    let mut patcher = get_patcher(&[], &[("DAC1", "DAC1")]);
    assert_eq!(patcher.process_device(), Ok(Progress::Finished));
    assert_eq!(
        names(&patcher.svd),
        vec!["ADC1".to_string(), "DAC2".to_string(), "DAC1".to_string()]
    );
    assert_eq!(get_peripheral(&patcher.svd, "DAC1"), Some(peripheral("DAC1", 0x100, &[5], 2)));
}

#[test]
fn copies_run_in_the_order_written() {
    let mut patcher = get_patcher(&[], &[("DAC2", "DAC1"), ("DAC4", "DAC2"), ("DAC1", "ADC1")]);
    assert_eq!(patcher.process_device(), Ok(Progress::Finished));
    assert_eq!(
        patcher.svd.peripherals,
        vec![
            peripheral("ADC1", 0x4001_2000, &[18], 1),
            peripheral("DAC2", 0x200, &[6], 2),
            peripheral("DAC4", 0x200, &[], 2),
            peripheral("DAC1", 0x100, &[5], 1),
        ]
    );
}

#[test]
fn copy_sees_the_device_after_the_deletions() {
    let mut patcher = get_patcher(&["DAC1"], &[("DAC2", "DAC1")]);
    assert_eq!(
        patcher.process_device(),
        Err(PatchError::PeripheralNotFound { name: "DAC1".to_string() })
    );
    assert_eq!(names(&patcher.svd), vec!["ADC1".to_string(), "DAC2".to_string()]);
}

#[test]
fn missing_source_ends_the_run_and_keeps_earlier_copies() {
    let mut patcher = get_patcher(&[], &[("DAC3", "DAC1"), ("DAC4", "TIM1"), ("DAC5", "DAC1")]);
    assert_eq!(
        patcher.process_device(),
        Err(PatchError::PeripheralNotFound { name: "TIM1".to_string() })
    );
    assert_eq!(
        names(&patcher.svd),
        vec!["ADC1".to_string(), "DAC1".to_string(), "DAC2".to_string(), "DAC3".to_string()]
    );
}

#[test]
fn name_carried_twice_counts_as_not_found() {
    let mut patcher = Patcher {
        svd: Device { peripherals: vec![peripheral("A", 1, &[1], 1), peripheral("A", 2, &[2], 2)] },
        yaml: commands(&[], &[("B", "A")]),
    };
    assert_eq!(get_peripheral(&patcher.svd, "A"), None);
    assert_eq!(
        patcher.process_device(),
        Err(PatchError::PeripheralNotFound { name: "A".to_string() })
    );
}

#[test]
fn destination_carried_twice_is_left_and_copy_has_no_interrupts() {
    let mut svd = Device {
        peripherals: vec![
            peripheral("A", 1, &[1], 1),
            peripheral("A", 2, &[2], 2),
            peripheral("S", 3, &[3], 3),
        ],
    };
    insert_copy(&mut svd, "A", peripheral("S", 3, &[3], 3));
    assert_eq!(
        svd.peripherals,
        vec![
            peripheral("A", 1, &[1], 1),
            peripheral("A", 2, &[2], 2),
            peripheral("S", 3, &[3], 3),
            peripheral("A", 3, &[], 3),
        ]
    );
}

#[test]
fn merge_with_existing_slot() {
    let merged = merge_peripheral(
        peripheral("DAC1", 0x100, &[5], 1),
        "DAC2",
        Some(peripheral("DAC2", 0x200, &[6, 7], 2)),
    );
    assert_eq!(merged, peripheral("DAC2", 0x200, &[6, 7], 1));
}

#[test]
fn merge_without_existing_slot() {
    let merged = merge_peripheral(peripheral("DAC1", 0x100, &[5], 1), "DAC9", None);
    assert_eq!(merged, peripheral("DAC9", 0x100, &[], 1));
}

#[test]
fn external_reference_asks_for_the_document() {
    let mut patcher = get_patcher(&["ADC1"], &[("DAC3", "DAC1"), ("TIM1", "other.svd:TIM")]);
    assert_eq!(
        patcher.process_device(),
        Ok(Progress::NeedsDocument { at: 1, path: "other.svd".to_string() })
    );
    assert_eq!(
        names(&patcher.svd),
        vec!["DAC1".to_string(), "DAC2".to_string(), "DAC3".to_string()]
    );
}

#[test]
fn external_reference_takes_the_peripheral_of_the_document() {
    let mut patcher = get_patcher(&[], &[("DAC2", "other.svd:TIM"), ("DAC5", "DAC2")]);
    assert_eq!(
        patcher.process_device(),
        Ok(Progress::NeedsDocument { at: 0, path: "other.svd".to_string() })
    );
    let other = Device {
        peripherals: vec![peripheral("DAC1", 0x900, &[90], 70), peripheral("TIM", 0x800, &[80], 71)],
    };
    assert_eq!(patcher.resume(0, Some(other)), Ok(Progress::Finished));
    assert_eq!(
        patcher.svd.peripherals,
        vec![
            peripheral("ADC1", 0x4001_2000, &[18], 1),
            peripheral("DAC1", 0x100, &[5], 2),
            peripheral("DAC2", 0x200, &[6], 71),
            peripheral("DAC5", 0x200, &[], 71),
        ]
    );
}

#[test]
fn external_reference_to_absent_peripheral_names_it() {
    let mut patcher = get_patcher(&[], &[("DAC3", "other.doc:PERIPH")]);
    assert_eq!(
        patcher.process_device(),
        Ok(Progress::NeedsDocument { at: 0, path: "other.doc".to_string() })
    );
    let other = Device { peripherals: vec![peripheral("DAC1", 0x900, &[90], 70)] };
    assert_eq!(
        patcher.resume(0, Some(other)),
        Err(PatchError::PeripheralNotFound { name: "PERIPH".to_string() })
    );
    assert_eq!(patcher.svd, three_peripherals());
}

#[test]
fn external_document_that_cannot_be_read_ends_the_run() {
    let mut patcher = get_patcher(&[], &[("DAC3", "DAC1"), ("DAC4", "gone.svd:DAC1")]);
    assert_eq!(
        patcher.process_device(),
        Ok(Progress::NeedsDocument { at: 1, path: "gone.svd".to_string() })
    );
    assert_eq!(
        patcher.resume(1, None),
        Err(PatchError::DocumentUnavailable { path: "gone.svd".to_string() })
    );
    assert_eq!(patcher.svd.peripherals.len(), 4);
}

#[test]
fn each_external_reference_asks_anew() {
    let mut patcher = get_patcher(&[], &[("X", "a.svd:P"), ("Y", "b.svd:P")]);
    assert_eq!(
        patcher.process_device(),
        Ok(Progress::NeedsDocument { at: 0, path: "a.svd".to_string() })
    );
    let first = Device { peripherals: vec![peripheral("P", 0xa, &[1], 10)] };
    assert_eq!(
        patcher.resume(0, Some(first)),
        Ok(Progress::NeedsDocument { at: 1, path: "b.svd".to_string() })
    );
    let second = Device { peripherals: vec![peripheral("P", 0xb, &[2], 20)] };
    assert_eq!(patcher.resume(1, Some(second)), Ok(Progress::Finished));
    assert_eq!(get_peripheral(&patcher.svd, "X"), Some(peripheral("X", 0xa, &[], 10)));
    assert_eq!(get_peripheral(&patcher.svd, "Y"), Some(peripheral("Y", 0xb, &[], 20)));
}

#[test]
fn resume_past_the_last_command_is_finished() {
    let mut patcher = get_patcher(&[], &[("X", "DAC1")]);
    assert_eq!(patcher.resume(1, None), Ok(Progress::Finished));
    assert_eq!(patcher.resume(7, Some(three_peripherals())), Ok(Progress::Finished));
    assert_eq!(patcher.svd, three_peripherals());
}

#[test]
fn reference_with_two_separators_is_malformed() {
    let mut patcher = get_patcher(&[], &[("DAC3", "a:b:DAC1")]);
    assert_eq!(
        patcher.process_device(),
        Err(PatchError::MalformedReference { reference: "a:b:DAC1".to_string() })
    );
    assert_eq!(patcher.svd, three_peripherals());
}

#[test]
fn malformed_reference_is_met_before_any_document_is_asked_for() {
    let mut patcher = get_patcher(&[], &[("DAC3", "x.svd:y.svd:DAC1"), ("DAC4", "z.svd:DAC1")]);
    assert_eq!(
        patcher.copy_peripherals(),
        Err(PatchError::MalformedReference { reference: "x.svd:y.svd:DAC1".to_string() })
    );
}

#[test]
fn parse_reference_splits_at_the_separator() {
    assert_eq!(
        parse_reference("DAC1"),
        Some(SourceReference::Local { name: "DAC1".to_string() })
    );
    assert_eq!(
        parse_reference("dir/other.svd:DAC1"),
        Some(SourceReference::External {
            path: "dir/other.svd".to_string(),
            name: "DAC1".to_string()
        })
    );
    assert_eq!(parse_reference(""), Some(SourceReference::Local { name: String::new() }));
    assert_eq!(
        parse_reference(":"),
        Some(SourceReference::External { path: String::new(), name: String::new() })
    );
    assert_eq!(
        parse_reference("päth:näme"),
        Some(SourceReference::External { path: "päth".to_string(), name: "näme".to_string() })
    );
    assert_eq!(parse_reference("a:b:c"), None);
    assert_eq!(parse_reference("::"), None);
    assert_eq!(parse_reference("a:b:c:d"), None);
}

#[test]
fn get_peripheral_finds_the_one_of_the_name() {
    let svd = three_peripherals();
    assert_eq!(get_peripheral(&svd, "DAC1"), Some(peripheral("DAC1", 0x100, &[5], 2)));
    assert_eq!(get_peripheral(&svd, "DAC"), None);
    assert_eq!(get_peripheral(&svd, ""), None);
    assert_eq!(get_peripheral(&Device { peripherals: Vec::new() }, "DAC1"), None);
}

#[test]
fn peripheral_clone_is_equal() {
    let one = Peripheral {
        name: "USART1".to_string(),
        base_address: 0x4001_3800,
        interrupt: vec![Interrupt {
            name: "USART1".to_string(),
            description: Some("global interrupt".to_string()),
            value: 37,
        }],
        registers: 12,
    };
    assert_eq!(one.clone(), one);
}

#[test]
fn names_stay_unique_through_a_run() {
    let mut patcher =
        get_patcher(&["ADC1"], &[("DAC2", "DAC1"), ("DAC3", "DAC2"), ("DAC1", "DAC3")]);
    assert_eq!(patcher.process_device(), Ok(Progress::Finished));
    let mut seen = names(&patcher.svd);
    seen.sort();
    seen.dedup();
    assert_eq!(seen.len(), patcher.svd.peripherals.len());
    assert_eq!(seen.len(), 3);
}

#[test]
fn supplied_document_waits_for_the_first_external_reference() {
    let mut patcher = get_patcher(&[], &[("X", "DAC1"), ("Y", "o.svd:P"), ("Z", "o.svd:P")]);
    let other = Device { peripherals: vec![peripheral("P", 0x70, &[7], 77)] };
    assert_eq!(
        patcher.resume(0, Some(other)),
        Ok(Progress::NeedsDocument { at: 2, path: "o.svd".to_string() })
    );
    assert_eq!(get_peripheral(&patcher.svd, "X"), Some(peripheral("X", 0x100, &[], 2)));
    assert_eq!(get_peripheral(&patcher.svd, "Y"), Some(peripheral("Y", 0x70, &[], 77)));
    assert_eq!(get_peripheral(&patcher.svd, "Z"), None);
}
