use krossbar_log::window::{LogRegistry, ShiftDirection};

fn five_lines(num: usize) -> Vec<String> {
    (0..5).map(|i| format!("log{}{}", num, i)).collect()
}

fn window_text(registry: &LogRegistry) -> String {
    let mut buffer = String::new();
    registry.write(&mut buffer);
    buffer
}

#[test]
fn test_single_file() {
    const WINDOW_SIZE: usize = 3;

    let mut registry = LogRegistry::new(String::from("karo.log"), five_lines(0));

    // [x, x, 2, 3, 4]
    registry.shift(ShiftDirection::Left, 0, WINDOW_SIZE);
    assert_eq!(window_text(&registry), "log02\nlog03\nlog04");

    // [x, 1, 2, 3, x]
    registry.shift(ShiftDirection::Left, 1, WINDOW_SIZE);
    assert_eq!(window_text(&registry), "log01\nlog02\nlog03");

    // [x, 1, 2, x, x]
    registry.shift(ShiftDirection::Left, 1, WINDOW_SIZE - 1);
    assert_eq!(window_text(&registry), "log01\nlog02");

    // [x, 1, 2, 3, x]
    registry.shift(ShiftDirection::Right, 0, WINDOW_SIZE);
    assert_eq!(window_text(&registry), "log01\nlog02\nlog03");

    // [0, 1, 2, x, x]
    registry.shift(ShiftDirection::Left, 1, WINDOW_SIZE);
    assert_eq!(window_text(&registry), "log00\nlog01\nlog02");

    // [x, 1, 2, 3, x]
    registry.shift(ShiftDirection::Right, 1, WINDOW_SIZE);
    assert_eq!(window_text(&registry), "log01\nlog02\nlog03");

    // [0, 1, x, x, x]
    registry.shift(ShiftDirection::Left, 2, WINDOW_SIZE);
    assert_eq!(window_text(&registry), "log00\nlog01");

    // [x, 1, 2, 3, x]
    registry.shift(ShiftDirection::Right, 1, WINDOW_SIZE);
    assert_eq!(window_text(&registry), "log01\nlog02\nlog03");
}

#[test]
fn shift_returns_line_count_and_clamps_at_edges() {
    let mut registry = LogRegistry::new(String::from("karo.log"), five_lines(0));
    assert_eq!(registry.shift(ShiftDirection::Left, 0, 3), 3);
    assert_eq!(registry.shift(ShiftDirection::Left, 10, 3), 0);
    assert_eq!(registry.render(), Vec::<String>::new());
    assert_eq!(registry.shift(ShiftDirection::Right, 3, 4), 2);
    assert_eq!(registry.render(), vec!["log03".to_string(), "log04".to_string()]);
    assert_eq!(registry.shift(ShiftDirection::Right, 7, 4), 0);
    assert_eq!(registry.shift(ShiftDirection::Left, 1, 100), 4);
    assert_eq!(window_text(&registry), "log00\nlog01\nlog02\nlog03");
}

#[test]
fn empty_log_gives_empty_window() {
    let mut registry = LogRegistry::new(String::from("karo.log"), Vec::new());
    assert_eq!(registry.shift(ShiftDirection::Left, 0, 3), 0);
    assert_eq!(registry.shift(ShiftDirection::Right, 2, 3), 0);
    assert_eq!(window_text(&registry), "");
    assert_eq!(registry.file_path(), "karo.log");
}

#[test]
fn window_spans_archived_and_live_segments() {
    let mut registry = LogRegistry::new(String::from("karo.log"), five_lines(0));
    registry.rotate_live(String::from("karo.log.0"), String::from("karo.log"));
    registry.append_live(five_lines(1));
    assert_eq!(registry.num_lines(), 10);
    assert_eq!(registry.shift(ShiftDirection::Left, 0, 3), 3);
    assert_eq!(window_text(&registry), "log02\nlog03\nlog04");
    assert_eq!(registry.file_path(), "karo.log.0");
    assert_eq!(registry.shift(ShiftDirection::Right, 1, 4), 4);
    assert_eq!(window_text(&registry), "log03\nlog04\nlog10\nlog11");
    assert_eq!(registry.file_path(), "karo.log.0");
    assert_eq!(registry.shift(ShiftDirection::Right, 4, 4), 3);
    assert_eq!(window_text(&registry), "log12\nlog13\nlog14");
    assert_eq!(registry.file_path(), "karo.log");
}

#[test]
fn lines_read_earlier_read_the_same_later() {
    let mut registry = LogRegistry::new(String::from("karo.log"), five_lines(0));
    let before = registry.line(3);
    registry.append_live(vec!["log05".to_string()]);
    registry.rotate_live(String::from("karo.log.0"), String::from("karo.log"));
    registry.append_live(five_lines(1));
    assert_eq!(registry.line(3), before);
    assert_eq!(registry.line(5), Some("log05".to_string()));
    assert_eq!(registry.line(10), Some("log14".to_string()));
    assert_eq!(registry.line(11), None);
}

#[test]
fn pruning_moves_the_head_and_clamps_the_window() {
    let mut registry = LogRegistry::new(String::from("karo.log"), five_lines(0));
    registry.rotate_live(String::from("karo.log.0"), String::from("karo.log"));
    registry.append_live(five_lines(1));
    registry.shift(ShiftDirection::Left, 2, 3);
    assert_eq!(window_text(&registry), "log00\nlog01\nlog02");
    assert!(registry.prune_oldest());
    assert_eq!(registry.first_index(), 5);
    assert_eq!(window_text(&registry), "");
    assert_eq!(registry.line(2), None);
    assert_eq!(registry.line(5), Some("log10".to_string()));
    registry.shift(ShiftDirection::Right, 0, 2);
    assert_eq!(window_text(&registry), "log10\nlog11");
    assert!(!registry.prune_oldest());
}
