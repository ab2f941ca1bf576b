use url_record::path::normalize;

fn strings(items: Vec<&str>) -> Vec<String> {
    items.into_iter().map(|s| s.to_string()).collect()
}

#[test]
fn single_dots_are_dropped() {
    assert_eq!(normalize(&strings(vec!["a", ".", "b", "."]), None, false), strings(vec!["a", "b"]));
}

#[test]
fn double_dots_pop_the_previous_segment() {
    assert_eq!(normalize(&strings(vec!["a", "b", "..", "c"]), None, false), strings(vec!["a", "c"]));
    assert_eq!(normalize(&strings(vec!["a", "..", "..", "c"]), None, false), strings(vec!["c"]));
    assert_eq!(normalize(&strings(vec!["..", ".."]), None, false), strings(vec![]));
}

#[test]
fn relative_path_inherits_all_but_the_last_base_segment() {
    let base = strings(vec!["b", "c", "d"]);
    assert_eq!(normalize(&strings(vec!["..", "..", "e"]), Some(&base), true), strings(vec!["e"]));
    assert_eq!(normalize(&strings(vec!["e"]), Some(&base), true), strings(vec!["b", "c", "e"]));
    assert_eq!(normalize(&strings(vec!["e"]), Some(&base), false), strings(vec!["e"]));
    assert_eq!(normalize(&strings(vec!["e"]), None, true), strings(vec!["e"]));
    assert_eq!(normalize(&strings(vec!["e"]), Some(&strings(vec![])), true), strings(vec!["e"]));
    assert_eq!(normalize(&strings(vec![]), Some(&base), true), strings(vec!["b", "c"]));
}

#[test]
fn dots_in_the_base_are_resolved_too() {
    let base = strings(vec!["a", "..", "b", "x"]);
    assert_eq!(normalize(&strings(vec!["c"]), Some(&base), true), strings(vec!["b", "c"]));
}

#[test]
fn drive_letter_is_not_popped() {
    assert_eq!(normalize(&strings(vec!["C:", "..", "y"]), None, false), strings(vec!["C:", "y"]));
    assert_eq!(normalize(&strings(vec!["c:", "x", "..", "..", "y"]), None, false), strings(vec!["c:", "y"]));
    assert_eq!(normalize(&strings(vec!["x", "C:", ".."]), None, false), strings(vec!["x"]));
    assert_eq!(normalize(&strings(vec!["C|", ".."]), None, false), strings(vec![]));
    assert_eq!(normalize(&strings(vec!["1:", ".."]), None, false), strings(vec![]));
}

#[test]
fn other_segments_are_kept_as_they_are() {
    assert_eq!(
        normalize(&strings(vec!["", "...", ".a", "%2f", "%2e%", ""]), None, false),
        strings(vec!["", "...", ".a", "%2f", "%2e%", ""])
    );
}

#[test]
fn normal_form_is_stable() {
    let once = normalize(&strings(vec!["a", ".", "b", "..", "..", "..", "c", "d", ".."]), None, false);
    assert_eq!(once, strings(vec!["c"]));
    assert_eq!(normalize(&once, None, false), once);
}

#[test]
fn dots_may_be_percent_encoded() {
    assert_eq!(normalize(&strings(vec!["a", "%2e", "b", "%2E"]), None, false), strings(vec!["a", "b"]));
    for two in vec!["..", ".%2e", ".%2E", "%2e.", "%2E.", "%2e%2e", "%2e%2E", "%2E%2e", "%2E%2E"] {
        assert_eq!(normalize(&strings(vec!["a", "b", two, "c"]), None, false), strings(vec!["a", "c"]));
    }
    assert_eq!(normalize(&strings(vec!["a", "%2e%2e%2e", "%2", "2e"]), None, false), strings(vec!["a", "%2e%2e%2e", "%2", "2e"]));
}
