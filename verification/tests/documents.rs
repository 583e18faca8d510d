use svd_patch::patch::commands::Commands;
use svd_patch::patch::commands::CopySource;
use svd_patch::patch::commands::YamlBody;
use svd_patch::patch::device::get_peripheral;
use svd_patch::patch::device::Device;
use svd_patch::patch::device::Peripheral;
use svd_patch::patch::patcher::Patcher;
use svd_patch::patch::patcher::Progress;
use svd_patch::patch::yaml::Mapping;
use svd_patch::patch::yaml::Yaml;
use svd_patch::patch::yaml_ext::parse_bool;
use svd_patch::patch::yaml_ext::parse_i64;
use svd_patch::patch::yaml_ext::AsType;
use svd_patch::patch::yaml_ext::GetVal;
use svd_patch::patch::yaml_ext::YamlError;

fn from_parsed(node: &yaml_rust::Yaml) -> Yaml {
    match node {
        yaml_rust::Yaml::Real(text) => Yaml::Real(text.clone()),
        yaml_rust::Yaml::Integer(i) => Yaml::Integer(*i),
        yaml_rust::Yaml::String(text) => Yaml::String(text.clone()),
        yaml_rust::Yaml::Boolean(b) => Yaml::Boolean(*b),
        yaml_rust::Yaml::Array(items) => Yaml::Array(items.iter().map(from_parsed).collect()),
        yaml_rust::Yaml::Hash(entries) => {
            let mut hash = Mapping::new();
            for (key, value) in entries {
                hash.insert(from_parsed(key), from_parsed(value));
            }
            Yaml::Hash(hash)
        }
        yaml_rust::Yaml::Alias(n) => Yaml::Alias(*n),
        yaml_rust::Yaml::Null => Yaml::Null,
        yaml_rust::Yaml::BadValue => Yaml::BadValue,
    }
}

fn load(text: &str) -> Yaml {
    let documents = yaml_rust::YamlLoader::load_from_str(text).unwrap();
    from_parsed(&documents[0])
}

const PATCH: &str = "
delete:
  - ADC1
  - TIM9
copy:
  DAC2:
    from: DAC1
  DAC3:
    from: \"other.svd:DAC\"
size: 0x20
width: \"0b1x1\"
mask: \"#1X0\"
big: \"1_000\"
ratio: 1.5
quoted: \"12\"
on: true
off: \"False\"
bit: 1
one: X
many: [X, Y]
mixed: [X, 2, Y, [Z]]
";

#[test]
fn parsed_document_is_read_by_the_accessors() {
    let document = load(PATCH);
    let root = document.hash().unwrap();
    assert_eq!(root.get_i64("size"), Some(32));
    assert_eq!(root.get_i64("width"), Some(5));
    assert_eq!(root.get_i64("mask"), Some(4));
    assert_eq!(root.get_i64("big"), Some(1000));
    assert_eq!(root.get_i64("quoted"), Some(12));
    assert_eq!(root.get_i64("ratio"), None);
    assert_eq!(root.get_i64("one"), None);
    assert_eq!(root.get_bool("on"), Some(true));
    assert_eq!(root.get_bool("off"), Some(false));
    assert_eq!(root.get_bool("bit"), Some(true));
    assert_eq!(root.get_bool("size"), None);
    assert_eq!(root.get_str("one"), Some("X"));
    assert_eq!(root.get_str("size"), None);
    assert_eq!(root.str_vec_iter("one").collect(), vec!["X"]);
    assert_eq!(root.str_vec_iter("many").collect(), vec!["X", "Y"]);
    assert_eq!(root.str_vec_iter("mixed").collect(), vec!["X", "Y"]);
    assert_eq!(root.str_vec_iter("absent").collect(), Vec::<&str>::new());
    assert_eq!(root.str_vec_iter("delete").collect(), vec!["ADC1", "TIM9"]);
}

#[test]
fn accessors_agree_with_the_parsed_tree() {
    let parsed = yaml_rust::YamlLoader::load_from_str(PATCH).unwrap();
    let entries = parsed[0].as_hash().unwrap();
    let document = from_parsed(&parsed[0]);
    let root = document.hash().unwrap();
    let pairs = root.entries();
    assert_eq!(pairs.len(), entries.len());
    for ((key, value), (parsed_key, parsed_value)) in pairs.iter().zip(entries.iter()) {
        assert_eq!(**key, from_parsed(parsed_key));
        assert_eq!(**value, from_parsed(parsed_value));
        assert_eq!(root.get(key), Some(*value));
        assert_eq!(value.str().ok(), parsed_value.as_str());
        assert_eq!(value.vec().is_ok(), parsed_value.as_vec().is_some());
        assert_eq!(value.hash().is_ok(), parsed_value.as_hash().is_some());
        if let Some(number) = parsed_value.as_i64() {
            assert_eq!(parse_i64(value), Some(number));
        }
        if let Some(truth) = parsed_value.as_bool() {
            assert_eq!(parse_bool(value), Some(truth));
        }
    }
}

#[test]
fn copy_commands_come_in_the_order_written() {
    let document = load(PATCH);
    let root = document.hash().unwrap();
    let copies: Vec<(String, String)> = root
        .hash_iter("copy")
        .into_iter()
        .map(|(dest, source)| {
            (dest.str().unwrap().to_string(), source.hash().unwrap().get_string("from").unwrap())
        })
        .collect();
    assert_eq!(
        copies,
        vec![
            ("DAC2".to_string(), "DAC1".to_string()),
            ("DAC3".to_string(), "other.svd:DAC".to_string())
        ]
    );
}

#[test]
fn commands_are_read_from_the_document() {
    let body = YamlBody::from_yaml(&load(PATCH)).unwrap();
    assert_eq!(
        body,
        YamlBody {
            commands: Commands {
                delete: vec!["ADC1".to_string(), "TIM9".to_string()],
                copy: vec![
                    ("DAC2".to_string(), CopySource { from: "DAC1".to_string() }),
                    ("DAC3".to_string(), CopySource { from: "other.svd:DAC".to_string() }),
                ],
            },
        }
    );
}

#[test]
fn document_without_commands_has_none() {
    let body = YamlBody::from_yaml(&load("name: STM32")).unwrap();
    assert_eq!(body, YamlBody { commands: Commands { delete: Vec::new(), copy: Vec::new() } });
    let body = YamlBody::from_yaml(&load("{}")).unwrap();
    assert_eq!(body, YamlBody { commands: Commands { delete: Vec::new(), copy: Vec::new() } });
}

#[test]
fn delete_may_be_one_name() {
    let body = YamlBody::from_yaml(&load("delete: ADC1")).unwrap();
    assert_eq!(body.commands.delete, vec!["ADC1".to_string()]);
    let body = YamlBody::from_yaml(&load("delete: [ADC1, 7, DAC1]")).unwrap();
    assert_eq!(body.commands.delete, vec!["ADC1".to_string(), "DAC1".to_string()]);
    let body = YamlBody::from_yaml(&load("delete: 7")).unwrap();
    assert_eq!(body.commands.delete, Vec::<String>::new());
}

#[test]
fn copy_of_another_shape_copies_nothing() {
    let body = YamlBody::from_yaml(&load("copy: [DAC1]")).unwrap();
    assert_eq!(body.commands.copy, Vec::new());
    let body = YamlBody::from_yaml(&load("copy: DAC1")).unwrap();
    assert_eq!(body.commands.copy, Vec::new());
}

#[test]
fn document_of_another_shape_is_refused() {
    assert_eq!(YamlBody::from_yaml(&load("[delete, copy]")), Err(YamlError::NotHash));
    assert_eq!(YamlBody::from_yaml(&load("delete")), Err(YamlError::NotHash));
    assert_eq!(YamlBody::from_yaml(&Yaml::Null), Err(YamlError::NotHash));
}

#[test]
fn copy_entry_of_another_shape_is_refused() {
    assert_eq!(YamlBody::from_yaml(&load("copy: {DAC2: DAC1}")), Err(YamlError::NotHash));
    assert_eq!(YamlBody::from_yaml(&load("copy: {DAC2: {to: DAC1}}")), Err(YamlError::NotStr));
    assert_eq!(YamlBody::from_yaml(&load("copy: {DAC2: {from: 1}}")), Err(YamlError::NotStr));
    assert_eq!(YamlBody::from_yaml(&load("copy: {2: {from: DAC1}}")), Err(YamlError::NotStr));
    assert_eq!(
        YamlBody::from_yaml(&load("copy: {DAC2: {from: DAC1}, DAC3: [DAC1], 4: {from: DAC1}}")),
        Err(YamlError::NotHash)
    );
}

#[test]
fn parsed_commands_patch_a_device() {
    let yaml = YamlBody::from_yaml(&load(PATCH)).unwrap();
    let plain = |name: &str, base_address: u64, registers: u64| Peripheral {
        name: name.to_string(),
        base_address,
        interrupt: Vec::new(),
        registers,
    };
    let svd = Device {
        peripherals: vec![plain("ADC1", 0x10, 1), plain("DAC1", 0x20, 2), plain("DAC2", 0x30, 3)],
    };
    let mut patcher = Patcher { svd, yaml };
    assert_eq!(
        patcher.process_device(),
        Ok(Progress::NeedsDocument { at: 1, path: "other.svd".to_string() })
    );
    let other = Device { peripherals: vec![plain("DAC", 0x90, 9)] };
    assert_eq!(patcher.resume(1, Some(other)), Ok(Progress::Finished));
    assert_eq!(
        patcher.svd.peripherals,
        vec![plain("DAC1", 0x20, 2), plain("DAC2", 0x30, 2), plain("DAC3", 0x90, 9)]
    );
    assert_eq!(get_peripheral(&patcher.svd, "ADC1"), None);
}
