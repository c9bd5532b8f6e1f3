use cairnlink::manifest::{parse_manifest, Manifest};
use cairnlink::ErrorKind;

#[test]
fn manifest_fields_and_sections() {
    let m = parse_manifest(b"# comment\n\nsite = Alpha \nincident=x\nmode=monitor\n[ops]\nKey = V\n").unwrap();
    assert_eq!(m.site_id, "Alpha");
    assert_eq!(m.incident, "x");
    assert_eq!(m.mode, "monitor");
    assert!(!m.rotation);
    assert_eq!(m.sections.len(), 2);
    assert_eq!(m.sections[0].name, "root");
    assert_eq!(m.sections[0].fields.len(), 3);
    assert_eq!(m.sections[0].fields[0], ("site".to_string(), "Alpha".to_string()));
    assert_eq!(m.sections[1].name, "ops");
    assert_eq!(m.sections[1].fields, vec![("key".to_string(), "V".to_string())]);
}

#[test]
fn empty_root_section_is_dropped() {
    let m = parse_manifest(b"[a]]\nx=1\n[]\n").unwrap();
    assert_eq!(m.sections.len(), 2);
    assert_eq!(m.sections[0].name, "a");
    assert_eq!(m.sections[1].name, "");
    assert!(m.sections[1].fields.is_empty());
}

#[test]
fn keys_are_lowercased_and_aliases_accepted() {
    let m = parse_manifest(b"SITE_ID=north\r\nContact_Rotation=true\r\n").unwrap();
    assert_eq!(m.site_id, "north");
    assert!(m.rotation);
}

#[test]
fn line_without_key_is_an_error() {
    let e = parse_manifest(b"site=a\n\nbroken line\n").unwrap_err();
    assert_eq!(e.kind, ErrorKind::InvalidText);
    assert_eq!(e.offset, 2);
    assert_eq!(e.detail, "manifest line lacks key");
}

#[test]
fn missing_site_gets_a_checksum_name() {
    let m = parse_manifest(b"mode=x\n").unwrap();
    assert_eq!(m.site_id, "site-1fec9d7e");
    let m = parse_manifest(b"").unwrap();
    assert_eq!(m.site_id, "site-9e3779b9");
    assert!(m.sections.is_empty());
}

#[test]
fn invalid_utf8_is_replaced() {
    let m = Manifest::parse(b"site=a\xffb\n").unwrap();
    assert_eq!(m.site_id, "a\u{fffd}b");
}

#[test]
fn rotating_contact_reads_the_field_view() {
    let m = parse_manifest(b"rotation=yes\ncontact=bob\n").unwrap();
    assert_eq!(m.primary_contact(), Some("bob:field".to_string()));
}

#[test]
fn fixed_contact_is_returned_as_given() {
    let m = parse_manifest(b"contact=ops\n").unwrap();
    assert_eq!(m.primary_contact(), Some("ops".to_string()));
    let m = parse_manifest(b"contact=zz\nrotation=1\n").unwrap();
    assert!(m.rotation);
    assert_eq!(m.primary_contact(), Some("zz".to_string()));
    let m = parse_manifest(b"site=s\n").unwrap();
    assert_eq!(m.primary_contact(), None);
}

#[test]
fn rotation_keeps_the_checksum_selected_view() {
    // "ops" folds to 3 modulo 8, so its field view is kept even before rotation is switched on
    let m = parse_manifest(b"contact=ops\nrotation=rotating\n").unwrap();
    assert_eq!(m.primary_contact(), Some("ops:field".to_string()));
}

#[test]
fn anchor_score_in_evacuation_mode() {
    let m = parse_manifest(b"mode=evac-north\nanchor=longanchor\n").unwrap();
    assert_eq!(m.anchor_score(), 18136537110194411044);
    let m = parse_manifest(b"mode=evac\nanchor=short\n").unwrap();
    assert_eq!(m.anchor_score(), 0);
    let m = parse_manifest(b"anchor=longanchor\nmode=evac\n").unwrap();
    assert_eq!(m.anchor_score(), 0);
}

#[test]
fn anchor_score_counts_sections_otherwise() {
    let m = parse_manifest(b"a=1\n[b]\n[c]\n").unwrap();
    assert_eq!(m.anchor_score(), 3);
}
