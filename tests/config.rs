use rsftch::config::{
    clone_strings, colors_from_names, default_json, default_layout, default_palette,
    get_color_config, get_colors, get_default_info_lists, get_info, load_layout, palette_covers,
    parse_color, parse_json_to_vec, section_color, Color, InfoLists, JsonColors, LayoutConfig,
};

fn strings(v: &[&str]) -> Vec<String> {
    v.iter().map(|s| s.to_string()).collect()
}

#[test]
fn color_names() {
    assert_eq!(parse_color("red"), Color::Red);
    assert_eq!(parse_color("RED"), Color::Red);
    assert_eq!(parse_color("Purple"), Color::Magenta);
    assert_eq!(parse_color("magenta"), Color::Magenta);
    assert_eq!(parse_color("cyan"), Color::Cyan);
    assert_eq!(parse_color("black"), Color::Black);
    assert_eq!(parse_color("yellow"), Color::Yellow);
    assert_eq!(parse_color("white"), Color::White);
    assert_eq!(parse_color("orange"), Color::White);
    assert_eq!(parse_color("default"), Color::Default);
    assert_eq!(parse_color("blac\u{212A}"), Color::Black);
}

#[test]
fn palette_defaults() {
    let d = vec![Color::Red, Color::Green, Color::Blue, Color::Magenta];
    assert_eq!(default_palette(), d);
    assert_eq!(get_colors(&None, false), d);
    assert_eq!(get_colors(&Some(strings(&["cyan"])), true), d);
    assert_eq!(get_colors(&Some(strings(&["cyan", "nope"])), false), vec![Color::Cyan, Color::White]);
    assert_eq!(colors_from_names(&strings(&["BLUE"])), vec![Color::Blue]);
}

#[test]
fn short_palette_falls_back() {
    let p = vec![Color::Red, Color::Green];
    assert_eq!(section_color(&p, 1), Color::Green);
    assert_eq!(section_color(&p, 2), Color::Green);
    assert_eq!(section_color(&p, 7), Color::Green);
    assert_eq!(section_color(&Vec::new(), 0), Color::Default);
    assert!(!palette_covers(&p, 3));
    assert!(palette_covers(&p, 1));
}

fn default_sections() -> Vec<Vec<String>> {
    vec![
        strings(&["os", "host", "shell", "packs", "user"]),
        strings(&["term", "de", "cpu", "gpu", "mem"]),
        strings(&["uptime", "res", "time", "disk"]),
    ]
}

#[test]
fn garbled_config_gives_default_layout() {
    let l = load_layout(None);
    assert_eq!(l.info, default_sections());
    assert_eq!(l.color, strings(&["red", "green", "blue", "purple"]));
    assert_eq!(parse_json_to_vec(None), default_sections());
}

#[test]
fn parsed_config_is_kept() {
    let custom = LayoutConfig { info: vec![strings(&["cpu"])], color: strings(&["red", "blue"]) };
    let l = load_layout(Some(custom));
    assert_eq!(l.info, vec![strings(&["cpu"])]);
    assert_eq!(l.color, strings(&["red", "blue"]));
}

fn string_list(v: &serde_json::Value) -> Vec<String> {
    v.as_array().unwrap().iter().map(|s| s.as_str().unwrap().to_string()).collect()
}

#[test]
fn default_json_reads_as_default_layout() {
    let text = default_json();
    let doc: serde_json::Value = serde_json::from_str(&text).unwrap();
    let info: Vec<Vec<String>> = doc["info"].as_array().unwrap().iter().map(string_list).collect();
    let color = string_list(&doc["color"]);
    let d = default_layout();
    assert_eq!(info, d.info);
    assert_eq!(color, d.color);
}

#[test]
fn empty_text_is_not_a_layout() {
    assert!(serde_json::from_str::<serde_json::Value>("").is_err());
    assert_eq!(load_layout(None).info, default_layout().info);
}

#[test]
fn palette_document_lookup() {
    let doc = JsonColors::new(vec![
        ("color0".to_string(), "cyan".to_string()),
        ("color1".to_string(), "RED".to_string()),
    ]);
    assert_eq!(doc.get_color_by_section("color0"), Some(Color::Cyan));
    assert_eq!(doc.get_color_by_section("color1"), Some(Color::Red));
    assert_eq!(doc.get_color_by_section("color2"), None);
    assert_eq!(get_color_config("color2", &doc), Color::Red);
    assert_eq!(get_color_config("color9", &doc), Color::Default);
}

#[test]
fn palette_document_loading() {
    let doc = JsonColors::new(vec![("color0".to_string(), "black".to_string())]);
    let kept = JsonColors::load_from_file(Some(doc), false);
    assert_eq!(kept.get_color_by_section("color0"), Some(Color::Black));
    let doc2 = JsonColors::new(vec![("color0".to_string(), "black".to_string())]);
    let over = JsonColors::load_from_file(Some(doc2), true);
    assert_eq!(over.get_color_by_section("color0"), Some(Color::Blue));
    let none = JsonColors::load_from_file(None, false);
    assert_eq!(none.get_color_by_section("color3"), Some(Color::Magenta));
    assert_eq!(JsonColors::default_colors().get_color_by_section("color2"), Some(Color::Red));
}

#[test]
fn info_lists() {
    assert_eq!(get_default_info_lists("info2"), strings(&["user", "term", "de"]));
    assert_eq!(get_default_info_lists("other"), strings(&["os"]));
    let lists = InfoLists {
        info1: strings(&["cpu"]),
        info2: strings(&["mem"]),
        info3: strings(&["gpu", "disk"]),
    };
    let some = Some(lists);
    assert_eq!(get_info("info3", false, &some), strings(&["gpu", "disk"]));
    assert_eq!(get_info("info1", true, &some), strings(&["os", "host", "shell", "kernel", "packs"]));
    assert_eq!(get_info("info4", false, &some), strings(&["os"]));
    assert_eq!(get_info("info3", false, &None), strings(&["cpu", "gpu", "mem", "uptime", "res"]));
    assert_eq!(clone_strings(&strings(&["a", "b"])), strings(&["a", "b"]));
}
