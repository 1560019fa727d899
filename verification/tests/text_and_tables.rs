use qubepixel::json;
use qubepixel::paths;
use qubepixel::single;
use qubepixel::table::Table;
use qubepixel::text;

#[test]
fn white_space_is_that_of_the_standard_library() {
    for n in 0..0x11_0000u32 {
        if let Some(c) = char::from_u32(n) {
            assert_eq!(text::white_space(c), c.is_whitespace(), "{:x}", n);
        }
    }
}

#[test]
fn trim_takes_white_space_off_both_ends() {
    for s in ["", "   ", " a b ", "\u{2003}x\u{a0}", "none", "\t\n"] {
        assert_eq!(text::trim(s), s.trim());
        assert_eq!(text::blank(s), s.trim().is_empty());
    }
}

#[test]
fn lower_case_goes_beyond_ascii() {
    assert_eq!(text::lower("ÄÖÜ STRASSE"), "äöü strasse");
    assert_eq!(text::lower("ΟΔΟΣ"), "οδος");
    assert_eq!(text::lower("plain"), "plain");
}

#[test]
fn searching_ignores_case() {
    assert!(text::contains_lowercased("Oak Planks", "oak"));
    assert!(text::contains_lowercased("Дерево", "дер"));
    assert!(text::contains_lowercased("anything", ""));
    assert!(!text::contains_lowercased("Oak", "birch"));
}

#[test]
fn substrings_are_found_where_they_are() {
    assert!(text::contains_text("abcabd", "abd"));
    assert!(!text::contains_text("abcab", "abd"));
    assert!(text::contains_text("", ""));
    assert!(!text::contains_text("", "a"));
}

#[test]
fn numbers_are_written_and_read() {
    for n in [0u64, 7, 10, 99, 100, 12345, u64::MAX] {
        assert_eq!(text::decimal_text(n), n.to_string());
        assert_eq!(text::parse_u64(&n.to_string()), Some(n));
    }
    for s in ["", "+", "-1", "1x", " 1", "18446744073709551616", "+5", "007", "٣"] {
        assert_eq!(text::parse_u64(s), s.parse::<u64>().ok(), "{:?}", s);
    }
}

#[test]
fn texts_are_ordered_like_strings() {
    let words = ["", "a", "ab", "b", "é", "z", "\u{ffff}", "\u{10000}"];
    for a in words {
        for b in words {
            assert_eq!(text::less_text(a, b), a < b, "{:?} {:?}", a, b);
        }
    }
}

#[test]
fn characters_are_replaced() {
    assert_eq!(text::replace_char("a\\b\\c", '\\', '/'), "a/b/c");
    assert_eq!(text::replace_char("", 'x', 'y'), "");
}

#[test]
fn tables_keep_the_order_of_first_insertion() {
    let mut t: Table<String, u32> = Table::new();
    assert_eq!(t.insert("b".to_string(), 1), None);
    assert_eq!(t.insert("a".to_string(), 2), None);
    assert_eq!(t.insert("b".to_string(), 3), Some(1));
    assert!(!t.insert_new("a".to_string(), 9));
    assert!(t.insert_new("c".to_string(), 4));
    assert_eq!(t.len(), 3);
    assert_eq!(t.key_at(0), "b");
    assert_eq!(*t.value_at(0), 3);
    assert_eq!(t.get(&"a".to_string()), Some(&2));
    assert_eq!(t.remove(&"b".to_string()), Some(3));
    assert_eq!(t.remove(&"b".to_string()), None);
    assert_eq!(t.len(), 2);
    assert_eq!(t.key_at(0), "a");
    assert!(!t.contains_key(&"b".to_string()));
}

#[test]
fn tables_look_up_positions() {
    let mut t: Table<(i32, i32, i32), u8> = Table::new();
    t.insert((1, -2, 3), 7);
    assert_eq!(t.find(&(1, -2, 3)), Some(0));
    assert_eq!(t.find(&(1, 2, 3)), None);
    assert_eq!(t.remove_at(0), ((1, -2, 3), 7));
}

#[test]
fn floats_are_compared_by_their_bits() {
    let values = [0.0f32, 1e-40, 0.5, 0.50001, 16.0, f32::INFINITY, -1.0, -0.0, f32::NAN];
    for v in values {
        for bound in [0.0f32, 0.5, 4.0] {
            assert_eq!(single::above(v.to_bits(), bound.to_bits()), v > bound, "{} {}", v, bound);
        }
    }
}

#[test]
fn fractions_are_compared_with_floats() {
    let rarities = [
        0.0f32, -0.0, -1.0, 1e-45, 1e-20, 5.9604645e-8, 0.001, 0.02, 0.25, 0.3, 0.9999999, 1.0, 2.0,
        f32::INFINITY, f32::NEG_INFINITY, f32::NAN,
    ];
    for r in rarities {
        for n in [0u32, 1, 2, 16777, 335544, 4194303, 4194304, 4194305, 16777214, 16777215] {
            let roll = n as f32 / (1u32 << 24) as f32;
            assert_eq!(single::fraction_below(n, r.to_bits()), !(roll >= r), "{} {}", n, r);
        }
    }
}

#[test]
fn a_registry_is_read_from_json() {
    let keys = json::registry_keys(r#"{"blocks": ["stone", 3, "dirt"], "version": 2}"#);
    assert_eq!(keys, ["stone", "dirt"]);
    assert!(json::registry_keys("not json").is_empty());
    assert!(json::registry_keys(r#"{"blocks": 5}"#).is_empty());
}

#[test]
fn a_registry_is_written_over_the_older_one() {
    let keys = vec!["stone".to_string(), "gl\"ass".to_string()];
    let older = r#"{"blocks": ["old"], "format_version": 7, "description": "mine"}"#;
    let text = json::registry_document(Some(older), &keys);
    assert_eq!(json::registry_keys(&text), keys);
    let value: serde_json::Value = serde_json::from_str(&text).unwrap();
    assert_eq!(value["format_version"], 7);
    assert_eq!(value["description"], "mine");
    for older in [None, Some("{"), Some("[]")] {
        let text = json::registry_document(older, &keys);
        assert_eq!(json::registry_keys(&text), keys);
        let value: serde_json::Value = serde_json::from_str(&text).unwrap();
        assert_eq!(value["format_version"], 1);
        assert_eq!(value["description"], "QubePixel Block Registry");
    }
}

#[test]
fn a_block_document_gets_a_version() {
    let text = json::block_document(r#"{"id": "stone", "solid": true}"#).unwrap();
    let value: serde_json::Value = serde_json::from_str(&text).unwrap();
    assert_eq!(value["id"], "stone");
    assert_eq!(value["solid"], true);
    assert_eq!(value["format_version"], 2);
    let text = json::block_document(r#"{"format_version": 5}"#).unwrap();
    let value: serde_json::Value = serde_json::from_str(&text).unwrap();
    assert_eq!(value["format_version"], 5);
    assert!(json::block_document("not json").is_none());
}

fn parts(list: &[&str]) -> Vec<String> {
    list.iter().map(|s| s.to_string()).collect()
}

#[test]
fn texture_keys_are_relative_to_the_block_textures() {
    let assets = parts(&["/", "game", "assets"]);
    let simple = parts(&["/", "game", "assets", "textures", "simpleblocks", "a", "stone.png"]);
    assert_eq!(paths::texture_key(&simple, &assets), Some("a/stone".to_string()));
    let dotted = parts(&["/", "game", "assets", "textures", "simpleblocks", "x.y.png"]);
    assert_eq!(paths::texture_key(&dotted, &assets), Some("x.y".to_string()));
    let other = parts(&["/", "game", "assets", "textures", "x.y.png"]);
    assert_eq!(paths::texture_key(&other, &assets), None);
    assert_eq!(paths::texture_key(&parts(&["/", "game", "assets", "a.png"]), &assets), None);
    assert_eq!(paths::texture_key(&parts(&["/", "else", "stone.png"]), &assets), None);
}

#[test]
fn project_paths_have_no_backslashes() {
    let working = parts(&["/", "game"]);
    let inside = parts(&["/", "game", "assets", "a.json"]);
    assert_eq!(paths::project_path(&inside, &working, "/game/assets/a.json"), "assets/a.json");
    let outside = parts(&["C:", "x"]);
    assert_eq!(paths::project_path(&outside, &working, "C:\\x"), "C:/x");
}
