use webscrape::doc::DocValue;
use webscrape::load::{config_from_doc, load_config};
use webscrape::model::ActionData;
use webscrape::emit::{actions_to_doc, targets_to_doc};

fn sample_doc() -> String {
    [
        "name: sample",
        "url: file:///p.html",
        "headless: true",
        "out_dir: out",
        "timeout: 5",
        "targets:",
        "  q:",
        "    selector: \"//h1\"",
        "  a:",
        "    selector: \".foo\"",
        "actions:",
        "  click_submit:",
        "    selector: \"#go\"",
        "  wait1:",
        "    duration: 1",
        "  type_email:",
        "    target: \"#e\"",
        "    text: \"a@b\"",
        "  shot:",
        "    target: \"#q\"",
        "    format: PNG",
        "  save_all:",
        "    targets: [q, a]",
        "    flatten: true",
        "steps:",
        "  - q",
        "  - wait1",
    ]
    .join("\n")
}

#[test]
fn load_sample_document() {
    let cfg = load_config(&sample_doc()).unwrap();
    assert_eq!(cfg.pipeline.name, "sample");
    assert_eq!(cfg.pipeline.url, "file:///p.html");
    assert!(cfg.pipeline.headless);
    assert_eq!(cfg.pipeline.out_dir, "out");
    assert_eq!(cfg.pipeline.timeout, 5);
    assert_eq!(cfg.steps, vec!["q".to_string(), "wait1".to_string()]);
    assert_eq!(cfg.targets.len(), 2);
    assert_eq!(cfg.actions.len(), 5);
}

#[test]
fn names_bound_to_keys() {
    let cfg = load_config(&sample_doc()).unwrap();
    let q = cfg.targets.get("q").unwrap();
    assert_eq!(q.name, "q");
    assert_eq!(q.selector, "//h1");
    let a = cfg.targets.get("a").unwrap();
    assert_eq!(a.name, "a");
    let w = cfg.actions.get("wait1").unwrap();
    assert_eq!(w.name, "wait1");
}

#[test]
fn structural_discrimination() {
    let cfg = load_config(&sample_doc()).unwrap();
    let click = cfg.actions.get("click_submit").unwrap();
    assert!(matches!(&click.data, ActionData::ActionClick(c) if c.selector == "#go"));
    let wait = cfg.actions.get("wait1").unwrap();
    assert!(matches!(&wait.data, ActionData::ActionWait(w) if w.duration == 1));
    let ty = cfg.actions.get("type_email").unwrap();
    assert!(
        matches!(&ty.data, ActionData::ActionTypeInto(t) if t.target == "#e" && t.text == "a@b")
    );
    let shot = cfg.actions.get("shot").unwrap();
    assert!(
        matches!(&shot.data, ActionData::ActionScreenshot(s) if s.target == "#q" && s.format == "PNG")
    );
    let save = cfg.actions.get("save_all").unwrap();
    assert!(
        matches!(&save.data, ActionData::ActionSave(s) if s.targets == vec!["q", "a"] && s.flatten)
    );
}

#[test]
fn missing_required_field_fails() {
    let text = sample_doc().replace("url: file:///p.html\n", "");
    assert!(load_config(&text).is_err());
}

#[test]
fn malformed_document_fails() {
    assert!(load_config("steps: [a, b").is_err());
    assert!(load_config("- just\n- a\n- list").is_err());
}

#[test]
fn action_with_unknown_shape_fails() {
    let text = sample_doc().replace("    duration: 1", "    pause: 1");
    assert!(load_config(&text).is_err());
}

#[test]
fn fractional_timeout_fails() {
    let text = sample_doc().replace("timeout: 5", "timeout: 1.5");
    assert!(load_config(&text).is_err());
}

#[test]
fn non_string_step_fails() {
    let text = sample_doc().replace("  - q\n", "  - 5\n");
    assert!(load_config(&text).is_err());
}

#[test]
fn empty_steps_allowed() {
    let text = sample_doc().replace("steps:\n  - q\n  - wait1", "steps: []");
    let cfg = load_config(&text).unwrap();
    assert!(cfg.steps.is_empty());
}

#[test]
fn unknown_top_level_keys_ignored() {
    let text = format!("{}\nextra: [1, 2, {{x: y}}]", sample_doc());
    assert!(load_config(&text).is_ok());
}

#[test]
fn round_trip_targets_and_actions() {
    let cfg = load_config(&sample_doc()).unwrap();
    let targets_doc = targets_to_doc(&cfg.targets);
    let actions_doc = actions_to_doc(&cfg.actions);
    let rebuilt = DocValue::Dict(vec![
        ("name".to_string(), DocValue::Str("sample".to_string())),
        ("url".to_string(), DocValue::Str("file:///p.html".to_string())),
        ("headless".to_string(), DocValue::Bool(true)),
        ("out_dir".to_string(), DocValue::Str("out".to_string())),
        ("timeout".to_string(), DocValue::Int(5)),
        ("targets".to_string(), targets_doc),
        ("actions".to_string(), actions_doc),
        ("steps".to_string(), DocValue::List(vec![])),
    ]);
    let cfg2 = config_from_doc(&rebuilt).unwrap();
    assert_eq!(cfg2.targets.len(), cfg.targets.len());
    let q = cfg2.targets.get("q").unwrap();
    assert_eq!(q.name, "q");
    assert_eq!(q.selector, "//h1");
    let a = cfg2.targets.get("a").unwrap();
    assert_eq!(a.selector, ".foo");
    assert_eq!(cfg2.actions.len(), cfg.actions.len());
    let ty = cfg2.actions.get("type_email").unwrap();
    assert!(
        matches!(&ty.data, ActionData::ActionTypeInto(t) if t.target == "#e" && t.text == "a@b")
    );
    let save = cfg2.actions.get("save_all").unwrap();
    assert!(
        matches!(&save.data, ActionData::ActionSave(s) if s.targets == vec!["q", "a"] && s.flatten)
    );
    let wait = cfg2.actions.get("wait1").unwrap();
    assert!(matches!(&wait.data, ActionData::ActionWait(w) if w.duration == 1));
    let shot = cfg2.actions.get("shot").unwrap();
    assert!(
        matches!(&shot.data, ActionData::ActionScreenshot(s) if s.target == "#q" && s.format == "PNG")
    );
    let click = cfg2.actions.get("click_submit").unwrap();
    assert!(matches!(&click.data, ActionData::ActionClick(c) if c.selector == "#go"));
}
