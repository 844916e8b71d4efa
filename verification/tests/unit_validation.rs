use tofupilot_studio::schema::{SubUnitItemConfig, SubUnitsConfig, UnitConfig, UnitFieldConfig};
use tofupilot_studio::string_map::StringMap;
use tofupilot_studio::unit::{validate_sub_unit_field, validate_sub_units, validate_unit_info, UnitInfo};

fn field(min: Option<usize>, max: Option<usize>, pattern: Option<&str>) -> Option<UnitFieldConfig> {
    Some(UnitFieldConfig {
        min_length: min,
        max_length: max,
        pattern: pattern.map(|p| p.to_string()),
        default_value: None,
        placeholder: None,
    })
}

fn item(label: &str, key: Option<&str>, serial_number: Option<UnitFieldConfig>) -> SubUnitItemConfig {
    SubUnitItemConfig { label: label.to_string(), key: key.map(|k| k.to_string()), serial_number }
}

fn create_config_with_items(items: Vec<SubUnitItemConfig>) -> SubUnitsConfig {
    SubUnitsConfig(items)
}

fn create_sub_units_map(pairs: Vec<(&str, &str)>) -> Option<StringMap> {
    let mut m = StringMap::new();
    for (k, v) in pairs {
        m.insert(k.to_string(), v.to_string());
    }
    Some(m)
}

fn unit_config(sub_units: Option<SubUnitsConfig>) -> Option<UnitConfig> {
    Some(UnitConfig {
        serial_number: Some(UnitFieldConfig::default()),
        part_number: Some(UnitFieldConfig::default()),
        revision_number: None,
        batch_number: None,
        sub_units,
        auto_identify: false,
        metadata: None,
    })
}

fn unit(sub_units: Option<StringMap>) -> UnitInfo {
    UnitInfo {
        serial_number: Some("SN-001".to_string()),
        part_number: Some("PN-001".to_string()),
        revision_number: None,
        batch_number: None,
        sub_units,
        status: "tested".to_string(),
        metadata: None,
    }
}

#[test]
fn test_validate_sub_unit_field_success() {
    let result = validate_sub_unit_field("Battery", "BAT-001", &None);
    assert!(result.is_ok());
}

#[test]
fn test_validate_sub_unit_field_empty_fails() {
    let result = validate_sub_unit_field("Battery", "", &None);
    assert!(result.is_err());
    assert!(result.unwrap_err().contains("Battery serial number is required"));
}

#[test]
fn test_validate_sub_unit_field_whitespace_only_fails() {
    let result = validate_sub_unit_field("Motor", "   ", &None);
    assert!(result.is_err());
    assert!(result.unwrap_err().contains("Motor serial number is required"));
}

#[test]
fn test_validate_sub_unit_field_min_length_pass() {
    let config = field(Some(5), None, None);
    let result = validate_sub_unit_field("Battery", "BAT-001", &config);
    assert!(result.is_ok());
}

#[test]
fn test_validate_sub_unit_field_min_length_fail() {
    let config = field(Some(10), None, None);
    let result = validate_sub_unit_field("Battery", "BAT", &config);
    assert!(result.is_err());
    assert!(result.unwrap_err().contains("at least 10 characters"));
}

#[test]
fn test_validate_sub_unit_field_max_length_pass() {
    let config = field(None, Some(20), None);
    let result = validate_sub_unit_field("Battery", "BAT-001", &config);
    assert!(result.is_ok());
}

#[test]
fn test_validate_sub_unit_field_max_length_fail() {
    let config = field(None, Some(5), None);
    let result = validate_sub_unit_field("Battery", "BAT-001-LONG", &config);
    assert!(result.is_err());
    assert!(result.unwrap_err().contains("at most 5 characters"));
}

#[test]
fn test_validate_sub_unit_field_pattern_pass() {
    let config = field(None, None, Some(r"^BAT-\d{3}$"));
    let result = validate_sub_unit_field("Battery", "BAT-001", &config);
    assert!(result.is_ok());
}

#[test]
fn test_validate_sub_unit_field_pattern_fail() {
    let config = field(None, None, Some(r"^BAT-\d{3}$"));
    let result = validate_sub_unit_field("Battery", "INVALID", &config);
    assert!(result.is_err());
    assert!(result.unwrap_err().contains("does not match required format"));
}

#[test]
fn test_validate_sub_unit_field_trims_whitespace() {
    let config = field(Some(3), Some(10), None);
    let result = validate_sub_unit_field("Battery", "  BAT-001  ", &config);
    assert!(result.is_ok());
}

#[test]
fn test_validate_sub_units_success() {
    let config = create_config_with_items(vec![
        item("Battery", None, None),
        item("Motor", None, None),
        item("Controller", None, None),
    ]);
    let sub_units = create_sub_units_map(vec![
        ("battery", "BAT-001"),
        ("motor", "MOT-002"),
        ("controller", "CTL-003"),
    ]);
    let result = validate_sub_units(&sub_units, &config);
    assert!(result.is_ok());
}

#[test]
fn test_validate_sub_units_none_when_expected() {
    let config = create_config_with_items(vec![item("Battery", None, None), item("Motor", None, None)]);
    let result = validate_sub_units(&None, &config);
    assert!(result.is_err());
    assert!(result.unwrap_err().contains("Expected 2 sub-units but got none"));
}

#[test]
fn test_validate_sub_units_wrong_count_too_few() {
    let config = create_config_with_items(vec![
        item("Battery", None, None),
        item("Motor", None, None),
        item("Controller", None, None),
    ]);
    let sub_units = create_sub_units_map(vec![("battery", "BAT-001"), ("motor", "MOT-002")]);
    let result = validate_sub_units(&sub_units, &config);
    assert!(result.is_err());
    assert!(result.unwrap_err().contains("Expected 3 sub-units but got 2"));
}

#[test]
fn test_validate_sub_units_wrong_count_too_many() {
    let config = create_config_with_items(vec![item("Battery", None, None), item("Motor", None, None)]);
    let sub_units = create_sub_units_map(vec![
        ("battery", "BAT-001"),
        ("motor", "MOT-002"),
        ("controller", "CTL-003"),
    ]);
    let result = validate_sub_units(&sub_units, &config);
    assert!(result.is_err());
    assert!(result.unwrap_err().contains("Expected 2 sub-units but got 3"));
}

#[test]
fn test_validate_sub_units_empty_serial_fails() {
    let config = create_config_with_items(vec![item("Battery", None, None), item("Motor", None, None)]);
    let sub_units = create_sub_units_map(vec![("battery", "BAT-001"), ("motor", "")]);
    let result = validate_sub_units(&sub_units, &config);
    assert!(result.is_err());
    assert!(result.unwrap_err().contains("Motor serial number is required"));
}

#[test]
fn test_validate_sub_units_missing_label() {
    let config = create_config_with_items(vec![item("Battery", None, None), item("Motor", None, None)]);
    let sub_units = create_sub_units_map(vec![("battery", "BAT-001"), ("wronglabel", "MOT-002")]);
    let result = validate_sub_units(&sub_units, &config);
    assert!(result.is_err());
    assert!(result.unwrap_err().contains("Missing sub-unit 'Motor'"));
}

#[test]
fn test_validate_sub_units_pattern_per_item() {
    let config = create_config_with_items(vec![
        item("Battery", None, field(None, None, Some(r"^BAT-\d+$"))),
        item("Motor", None, field(None, None, Some(r"^MOT-\d+$"))),
    ]);
    let sub_units = create_sub_units_map(vec![("battery", "BAT-001"), ("motor", "MOT-002")]);
    let result = validate_sub_units(&sub_units, &config);
    assert!(result.is_ok());
}

#[test]
fn test_validate_sub_units_pattern_fail_shows_label() {
    let config = create_config_with_items(vec![item("Battery Pack", None, field(None, None, Some(r"^BAT-\d+$")))]);
    let sub_units = create_sub_units_map(vec![("battery_pack", "INVALID")]);
    let result = validate_sub_units(&sub_units, &config);
    assert!(result.is_err());
    let err = result.unwrap_err();
    assert!(err.contains("Battery Pack"));
    assert!(err.contains("does not match required format"));
}

#[test]
fn test_validate_sub_units_min_length_per_item() {
    let config = create_config_with_items(vec![item("Battery", None, field(Some(10), None, None))]);
    let sub_units = create_sub_units_map(vec![("battery", "BAT")]);
    let result = validate_sub_units(&sub_units, &config);
    assert!(result.is_err());
    assert!(result.unwrap_err().contains("at least 10 characters"));
}

#[test]
fn test_validate_unit_info_no_sub_units_config() {
    let mut sub_units_map = StringMap::new();
    sub_units_map.insert("Test".to_string(), "SUB-1".to_string());
    let unit_info = unit(Some(sub_units_map));
    let config = unit_config(None);
    let result = validate_unit_info(&unit_info, &config);
    assert!(result.is_ok());
}

#[test]
fn test_validate_unit_info_with_sub_units_config() {
    let mut sub_units_map = StringMap::new();
    sub_units_map.insert("battery".to_string(), "BAT-001".to_string());
    sub_units_map.insert("motor".to_string(), "MOT-002".to_string());
    let unit_info = unit(Some(sub_units_map));
    let config = unit_config(Some(SubUnitsConfig(vec![item("Battery", None, None), item("Motor", None, None)])));
    let result = validate_unit_info(&unit_info, &config);
    assert!(result.is_ok());
}

#[test]
fn test_validate_unit_info_sub_units_missing_when_required() {
    let unit_info = unit(None);
    let config = unit_config(Some(SubUnitsConfig(vec![item("Battery", None, None), item("Motor", None, None)])));
    let result = validate_unit_info(&unit_info, &config);
    assert!(result.is_err());
    assert!(result.unwrap_err().contains("Expected 2 sub-units"));
}

#[test]
fn test_validate_sub_units_with_custom_key() {
    let config = create_config_with_items(vec![
        item("Li-Ion Battery Pack", Some("battery"), None),
        item("3-Phase Motor", Some("motor"), None),
    ]);
    let sub_units = create_sub_units_map(vec![("battery", "BAT-001"), ("motor", "MOT-002")]);
    let result = validate_sub_units(&sub_units, &config);
    assert!(result.is_ok());
}

#[test]
fn test_validate_sub_units_custom_key_missing() {
    let config = create_config_with_items(vec![item("Li-Ion Battery Pack", Some("battery"), None)]);
    let sub_units = create_sub_units_map(vec![("wrong_key", "BAT-001")]);
    let result = validate_sub_units(&sub_units, &config);
    assert!(result.is_err());
    let err = result.unwrap_err();
    assert!(err.contains("Missing sub-unit"));
    assert!(err.contains("Li-Ion Battery Pack"));
}

// Own tests.

#[test]
fn unit_field_missing_value_is_required() {
    let config = UnitFieldConfig::default();
    let result = tofupilot_studio::unit::validate_unit_field("serial_number", &None, &config);
    assert_eq!(result.unwrap_err(), "serial_number is required");
}

#[test]
fn unit_info_without_config_is_accepted() {
    let unit_info = unit(None);
    assert!(validate_unit_info(&unit_info, &None).is_ok());
}

#[test]
fn unit_info_blank_serial_is_refused() {
    let mut unit_info = unit(None);
    unit_info.serial_number = Some("   ".to_string());
    let result = validate_unit_info(&unit_info, &unit_config(None));
    assert_eq!(result.unwrap_err(), "Serial Number cannot be empty");
}

#[test]
fn unit_info_missing_serial_is_refused() {
    let mut unit_info = unit(None);
    unit_info.serial_number = None;
    let result = validate_unit_info(&unit_info, &unit_config(None));
    assert_eq!(result.unwrap_err(), "Serial Number is required");
}

#[test]
fn unit_info_missing_part_number_is_refused() {
    let mut unit_info = unit(None);
    unit_info.part_number = None;
    let result = validate_unit_info(&unit_info, &unit_config(None));
    assert_eq!(result.unwrap_err(), "Part Number is required");
}

#[test]
fn unit_field_optional_blank_revision_is_refused() {
    let config = UnitFieldConfig::default();
    let result = tofupilot_studio::unit::validate_unit_field("Revision Number", &Some("  ".to_string()), &config);
    assert_eq!(result.unwrap_err(), "Revision Number cannot be empty or contain only whitespace");
    assert!(tofupilot_studio::unit::validate_unit_field("Revision Number", &None, &config).is_ok());
}

#[test]
fn unit_field_length_message_counts_bytes() {
    let config = field(Some(10), None, None);
    let result = validate_sub_unit_field("Battery", "BAT", &config);
    assert_eq!(result.unwrap_err(), "Battery must be at least 10 characters (got 3)");
}

#[test]
fn invalid_pattern_is_reported() {
    let config = field(None, None, Some("(unclosed"));
    let result = validate_sub_unit_field("Battery", "BAT-001", &config);
    assert!(result.is_err());
}

#[test]
fn operator_submission_is_built_and_checked() {
    use_submission_checks();
}

fn use_submission_checks() {
    let mut data = StringMap::new();
    data.insert("serial_number".to_string(), "SN-1".to_string());
    data.insert("sub_unit:battery".to_string(), "BAT-001".to_string());
    data.insert("metadata:operator".to_string(), "  Ada  ".to_string());
    data.insert("metadata:unknown".to_string(), "x".to_string());
    let mut config = unit_config(Some(SubUnitsConfig(vec![item("Battery", None, None)])));
    if let Some(c) = config.as_mut() {
        c.part_number = None;
        c.metadata = Some(vec![("operator".to_string(), UnitFieldConfig::default())]);
    }
    let u = tofupilot_studio::run_setup::check_unit_submission(&data, &config).expect("valid");
    assert_eq!(u.serial_number.as_deref(), Some("SN-1"));
    assert_eq!(u.part_number, None);
    assert_eq!(u.status, "active");
    let md = u.metadata.expect("metadata");
    assert_eq!(md.len(), 1);
    assert_eq!(md.get("operator").map(|s| s.as_str()), Some("Ada"));
    let subs = u.sub_units.expect("subs");
    assert_eq!(subs.get("battery").map(|s| s.as_str()), Some("BAT-001"));
    let mut missing = StringMap::new();
    missing.insert("serial_number".to_string(), "SN-1".to_string());
    let err = tofupilot_studio::run_setup::check_unit_submission(&missing, &config).err();
    assert_eq!(err, Some("Expected 1 sub-units but got none".to_string()));
}
