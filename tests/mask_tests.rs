use ost::mask::{FieldMask, FieldMaskBuilder};
use ost::projection::{projected_sections, Section};

#[test]
fn test_field_mask_parse_comma_separated() {
    let mask = FieldMask::parse("vehicle,timing,motion");
    assert!(mask.includes("vehicle"));
    assert!(mask.includes("timing"));
    assert!(mask.includes("motion"));
    assert!(!mask.includes("weather"));
    assert!(!mask.is_all());
}

#[test]
fn test_field_mask_parse_with_whitespace() {
    let mask = FieldMask::parse(" vehicle , timing , motion ");
    assert!(mask.includes("vehicle"));
    assert!(mask.includes("timing"));
    assert!(mask.includes("motion"));
}

#[test]
fn test_field_mask_parse_case_insensitive() {
    let mask = FieldMask::parse("Vehicle,TIMING,Motion");
    assert!(mask.includes("vehicle"));
    assert!(mask.includes("timing"));
    assert!(mask.includes("motion"));
}

#[test]
fn test_field_mask_parse_empty_string() {
    let mask = FieldMask::parse("");
    assert!(!mask.is_all());
    assert!(!mask.includes("vehicle"));
}

#[test]
fn test_field_mask_all() {
    let mask = FieldMask::all();
    assert!(mask.is_all());
    assert!(mask.includes("vehicle"));
    assert!(mask.includes("anything"));
}

#[test]
fn test_field_mask_from_str() {
    let mask: FieldMask = "vehicle,timing".parse().unwrap();
    assert!(mask.includes("vehicle"));
    assert!(mask.includes("timing"));
    assert!(!mask.includes("engine"));
}

#[test]
fn test_field_mask_builder() {
    let mask = FieldMaskBuilder::default()
        .vehicle()
        .timing()
        .engine()
        .build();
    assert!(mask.includes("vehicle"));
    assert!(mask.includes("timing"));
    assert!(mask.includes("engine"));
    assert!(!mask.includes("weather"));
}

#[test]
fn test_field_mask_section_includes_subfields() {
    let mask = FieldMask::parse("vehicle");
    assert!(mask.includes("vehicle"));
    assert!(mask.includes("vehicle.speed"));
    assert!(!mask.includes("timing"));
}

#[test]
fn mask_child_path_pins_section() {
    let mask = FieldMask::parse("vehicle.speed");
    assert!(mask.includes("vehicle"));
    assert!(mask.includes("vehicle.speed"));
    assert!(!mask.includes("vehicle.rpm"));
    assert!(!mask.includes("timing"));
    // a token that only shares a prefix is no child
    assert!(!FieldMask::parse("vehiclex").includes("vehicle"));
}

#[test]
fn mask_tokens_are_lowered_once() {
    let mask = FieldMask::parse("VEHICLE");
    assert!(mask.includes_lowered("vehicle"));
    assert!(!mask.includes_lowered("VEHICLE"));
    assert!(mask.includes("Vehicle.Speed"));
}

#[test]
fn mask_drops_empty_tokens() {
    let mask = FieldMask::parse(" , ,timing,, ");
    assert!(mask.includes("timing"));
    assert!(!mask.includes(""));
    assert!(!FieldMask::default().includes("timing"));
}

#[test]
fn builder_with_field_lowers() {
    let mask = FieldMaskBuilder::default().with_field("Pit").build();
    assert!(mask.includes_lowered("pit"));
    assert!(!mask.is_all());
}

#[test]
fn projection_keeps_requested_populated_sections() {
    let populated = vec![Section::Motion, Section::Vehicle, Section::Timing, Section::Session, Section::Extras];
    let mask = FieldMask::parse("vehicle,timing,weather");
    let kept = projected_sections(Some(&mask), &populated);
    assert_eq!(kept, vec![Section::Vehicle, Section::Timing]);
    let sub = FieldMask::parse("vehicle.speed");
    assert_eq!(projected_sections(Some(&sub), &populated), vec![Section::Vehicle]);
}

#[test]
fn projection_without_mask_keeps_everything() {
    let populated = vec![Section::Engine, Section::Driver];
    assert_eq!(projected_sections(None, &populated), populated);
    assert_eq!(projected_sections(Some(&FieldMask::all()), &populated), populated);
    assert_eq!(projected_sections(Some(&FieldMask::parse("")), &populated), Vec::<Section>::new());
}

#[test]
fn section_names() {
    assert_eq!(Section::Motion.name(), "motion");
    assert_eq!(Section::Extras.name(), "extras");
    assert_eq!(Section::Competitors.name(), "competitors");
}
