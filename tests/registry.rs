use rsftch::registry::{assemble, field_kind, get_info_vecs, icon, title, FieldKind};

fn strings(v: &[&str]) -> Vec<String> {
    v.iter().map(|s| s.to_string()).collect()
}

#[test]
fn synonyms_select_one_field() {
    assert_eq!(field_kind("os"), FieldKind::Distro);
    assert_eq!(field_kind("Distro"), FieldKind::Distro);
    assert_eq!(field_kind("mem"), FieldKind::Memory);
    assert_eq!(field_kind("MEMORY"), FieldKind::Memory);
    assert_eq!(field_kind("dewm"), FieldKind::Desktop);
    assert_eq!(field_kind("resolution"), FieldKind::Resolution);
    assert_eq!(field_kind("time"), FieldKind::Timezone);
    assert_eq!(field_kind("diskusage"), FieldKind::Disk);
    assert_eq!(field_kind("bogus"), FieldKind::Empty);
    assert_eq!(field_kind("\u{212A}ernel"), FieldKind::Kernel);
    assert_eq!(field_kind("\u{130}"), FieldKind::Empty);
}

#[test]
fn titles_and_icons() {
    assert_eq!(title(FieldKind::Desktop), "de/wm");
    assert_eq!(title(FieldKind::Packages), "packs");
    assert_eq!(title(FieldKind::Empty), "empty");
    assert_eq!(icon(FieldKind::Empty), "");
    assert_eq!(icon(FieldKind::Distro).chars().count(), 1);
}

#[test]
fn layout_selects_fields_in_order() {
    let layout = vec![strings(&["os", "kernel"]), strings(&[]), strings(&["nope", "gpu"])];
    let kinds = get_info_vecs(&layout);
    assert_eq!(
        kinds,
        vec![
            vec![FieldKind::Distro, FieldKind::Kernel],
            vec![],
            vec![FieldKind::Empty, FieldKind::Gpu]
        ]
    );
}

#[test]
fn repeated_field_resolves_independently() {
    let layout = vec![strings(&["cpu", "os"]), strings(&["CPU"])];
    let kinds = get_info_vecs(&layout);
    assert_eq!(kinds[0][0], kinds[1][0]);
    let values = vec![strings(&["Ryzen 5", "Arch"]), strings(&["Ryzen 5"])];
    let sections = assemble(&kinds, &values);
    assert_eq!(sections[0].len(), 2);
    assert_eq!(sections[1].len(), 1);
    assert_eq!(sections[0][0].title, "cpu");
    assert_eq!(sections[0][0].value, "Ryzen 5");
    assert_eq!(sections[1][0].title, "cpu");
    assert_eq!(sections[1][0].value, "Ryzen 5");
}

#[test]
fn empty_values_are_pruned() {
    let kinds = get_info_vecs(&vec![strings(&["os", "bogus", "host"]), strings(&["gpu"])]);
    let values = vec![strings(&["Arch", "", "box"])];
    let sections = assemble(&kinds, &values);
    assert_eq!(sections.len(), 2);
    assert_eq!(sections[0].len(), 2);
    assert_eq!(sections[0][0].title, "distro");
    assert_eq!(sections[0][1].title, "host");
    assert_eq!(sections[0][1].value, "box");
    assert!(sections[1].is_empty());
}
