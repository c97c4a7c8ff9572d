use webscrape::load::load_config;
use webscrape::model::{DOMElement, element_from_flat};
use webscrape::pipeline::{PipelineRunner, ScrapingPipeline, format_of};
use webscrape::session::{Command, MemorySession, Page, SaveContent, SessionEnv};
use webscrape::strmap::StrMap;
use webscrape::strutil::u32_to_string;
use webscrape::ScreenshotFormat;

fn element(text: &str, tag: &str) -> DOMElement {
    element_from_flat(text.to_string(), tag.to_string(), &Vec::new())
}

fn page_with_xpath(selector: &str, els: Vec<DOMElement>) -> Page {
    let mut page = Page::new();
    page.xpath.insert(selector.to_string(), els);
    page
}

fn env_with(url: &str, page: Page) -> SessionEnv {
    let mut env = SessionEnv::new();
    env.pages.insert(url.to_string(), page);
    env
}

fn simple_doc(targets: &str, actions: &str, steps: &str) -> String {
    format!(
        "name: t\nurl: file:///p.html\nheadless: true\nout_dir: out\ntimeout: 5\ntargets:{}\nactions:{}\nsteps:{}",
        targets, actions, steps
    )
}

#[test]
fn simple_target_run() {
    let doc = simple_doc(
        "\n  q:\n    selector: \"//h1\"",
        " {}",
        "\n  - q",
    );
    let env = env_with("file:///p.html", page_with_xpath("//h1", vec![element("Hi", "h1")]));
    let mut pipe = ScrapingPipeline::from_text(&doc, env).unwrap();
    let res = pipe.run(&"DEFAULT".to_string());
    assert_eq!(res.elements.len(), 1);
    let q = res.elements.get("q").unwrap();
    assert_eq!(q.len(), 1);
    assert_eq!(q[0].text, "Hi");
    assert_eq!(q[0].attrs.len(), 1);
    assert_eq!(q[0].attrs.get("tag").unwrap(), "h1");
    assert_eq!(res.screenshots.len(), 0);
}

#[test]
fn collect_after_run_is_empty() {
    let doc = simple_doc(
        "\n  q:\n    selector: \"//h1\"",
        " {}",
        "\n  - q",
    );
    let env = env_with("file:///p.html", page_with_xpath("//h1", vec![element("Hi", "h1")]));
    let mut pipe = ScrapingPipeline::from_text(&doc, env).unwrap();
    let _ = pipe.run(&"DEFAULT".to_string());
    let drained = pipe.session.collect();
    assert_eq!(drained.elements.len(), 0);
    assert_eq!(drained.screenshots.len(), 0);
}

#[test]
fn css_and_xpath_find_same_content() {
    let doc_css = simple_doc(
        "\n  a:\n    selector: \".foo\"",
        " {}",
        "\n  - a",
    );
    let mut page = Page::new();
    page.css.insert(
        ".foo".to_string(),
        vec![element("x", "div"), element("y", "div")],
    );
    page.xpath.insert(
        "/html/body/div[@class='foo']".to_string(),
        vec![element("x", "div"), element("y", "div")],
    );
    let env = env_with("file:///p.html", page);
    let mut pipe = ScrapingPipeline::from_text(&doc_css, env.dup()).unwrap();
    let res = pipe.run(&"DEFAULT".to_string());
    let a = res.elements.get("a").unwrap();
    assert_eq!(a.len(), 2);
    assert_eq!(a[0].text, "x");
    assert_eq!(a[1].text, "y");

    let doc_xpath = simple_doc(
        "\n  a:\n    selector: \"/html/body/div[@class='foo']\"",
        " {}",
        "\n  - a",
    );
    let mut pipe2 = ScrapingPipeline::from_text(&doc_xpath, env).unwrap();
    let res2 = pipe2.run(&"DEFAULT".to_string());
    let a2 = res2.elements.get("a").unwrap();
    assert_eq!(a2.len(), 2);
    assert_eq!(a2[0].text, "x");
    assert_eq!(a2[1].text, "y");
}

#[test]
fn selector_kind_mismatch_is_noop() {
    // An XPath selector registered as a target is dispatched by its kind,
    // so force the mismatch at the session level.
    let env = env_with("u", page_with_xpath("//h1", vec![element("Hi", "h1")]));
    let mut session = MemorySession::new(env);
    session.navigate_to("u");
    session.find_elements_by_css("q", "//h1");
    let res = session.collect();
    assert_eq!(res.elements.len(), 0);
}

#[test]
fn alias_rewrite_registers_copy() {
    let doc = simple_doc(
        "\n  base:\n    selector: \"//p\"",
        " {}",
        "\n  - copy from base\n  - copy",
    );
    let env = env_with(
        "file:///p.html",
        page_with_xpath("//p", vec![element("hello", "p")]),
    );
    let mut pipe = ScrapingPipeline::from_text(&doc, env).unwrap();
    let res = pipe.run(&"DEFAULT".to_string());
    assert!(pipe.pipeline_config.targets.contains_key("base"));
    assert!(pipe.pipeline_config.targets.contains_key("copy"));
    let copy = pipe.pipeline_config.targets.get("copy").unwrap();
    assert_eq!(copy.name, "copy");
    assert_eq!(copy.selector, "//p");
    // One registration, under the rewritten name only.
    assert_eq!(res.elements.len(), 1);
    assert!(res.elements.get("copy").is_some());
}

#[test]
fn alias_steps_resolved_or_dropped() {
    let doc = simple_doc(
        "\n  base:\n    selector: \"//p\"",
        " {}",
        "\n  - copy from base\n  - ghost from nowhere\n  - base",
    );
    let env = env_with("file:///p.html", Page::new());
    let mut pipe = ScrapingPipeline::from_text(&doc, env).unwrap();
    let _ = pipe.run(&"DEFAULT".to_string());
    let steps = pipe.get_steps();
    assert_eq!(steps, vec!["copy".to_string(), "base".to_string()]);
    for s in &steps {
        assert!(!s.contains(" from "));
    }
}

#[test]
fn action_sequence_order_and_arguments() {
    let doc = simple_doc(
        "\n  result:\n    selector: \"//div\"",
        "\n  type_email:\n    target: \"#e\"\n    text: \"a@b\"\n  click_submit:\n    selector: \"#go\"\n  wait1:\n    duration: 1",
        "\n  - type_email\n  - click_submit\n  - wait1\n  - result",
    );
    let env = env_with(
        "file:///p.html",
        page_with_xpath("//div", vec![element("done", "div")]),
    );
    let mut pipe = ScrapingPipeline::from_text(&doc, env).unwrap();
    let res = pipe.run(&"DEFAULT".to_string());
    let calls = &pipe.session.calls;
    assert_eq!(calls.len(), 5);
    assert!(matches!(&calls[0], Command::Navigate { url } if url == "file:///p.html"));
    assert!(
        matches!(&calls[1], Command::TypeInto { name, target, text }
            if name == "type_email" && target == "#e" && text == "a@b")
    );
    assert!(
        matches!(&calls[2], Command::Click { name, selector }
            if name == "click_submit" && selector == "#go")
    );
    assert!(matches!(&calls[3], Command::Sleep { secs } if *secs == 1));
    assert!(
        matches!(&calls[4], Command::FindXpath { name, selector }
            if name == "result" && selector == "//div")
    );
    assert_eq!(res.elements.len(), 1);
    assert!(res.elements.get("result").is_some());
}

#[test]
fn save_flatten_concatenates_in_order() {
    let env = env_with("http://host/out.json", Page::new());
    let mut session = MemorySession::new(env);
    session.navigate_to("http://host/out.json");
    session
        .elements
        .insert("t1".to_string(), vec![element("e1", "p"), element("e2", "p")]);
    session.elements.insert("t2".to_string(), vec![element("e3", "p")]);
    session.save(&vec!["t1".to_string(), "t2".to_string()], true);
    assert_eq!(session.saved.len(), 1);
    let doc = &session.saved[0];
    assert_eq!(doc.stem, "out");
    match &doc.content {
        SaveContent::Flat(els) => {
            assert_eq!(els.len(), 3);
            assert_eq!(els[0].text, "e1");
            assert_eq!(els[1].text, "e2");
            assert_eq!(els[2].text, "e3");
        }
        SaveContent::Keyed(_) => panic!("expected a flattened document"),
    }
    // Save does not drain: collect still returns the same data.
    let res = session.collect();
    assert_eq!(res.elements.len(), 2);
    assert_eq!(res.elements.get("t1").unwrap().len(), 2);
    assert_eq!(res.elements.get("t2").unwrap().len(), 1);
}

#[test]
fn save_keyed_keeps_selected_targets_only() {
    let env = env_with("http://host/data.html", Page::new());
    let mut session = MemorySession::new(env);
    session.navigate_to("http://host/data.html");
    session.elements.insert("t1".to_string(), vec![element("e1", "p")]);
    session.elements.insert("t2".to_string(), vec![element("e2", "p")]);
    session.save(&vec!["t2".to_string()], false);
    let doc = &session.saved[0];
    assert_eq!(doc.stem, "data");
    match &doc.content {
        SaveContent::Keyed(m) => {
            assert_eq!(m.len(), 1);
            assert_eq!(m.get("t2").unwrap()[0].text, "e2");
        }
        SaveContent::Flat(_) => panic!("expected a keyed document"),
    }
}

#[test]
fn screenshot_stores_canned_bytes() {
    let mut page = Page::new();
    page.shots.insert("#q".to_string(), vec![1, 2, 3]);
    let env = env_with("u", page);
    let mut session = MemorySession::new(env);
    session.navigate_to("u");
    session.screenshot("shot", "#q", ScreenshotFormat::PNG);
    session.screenshot("missing", "#none", ScreenshotFormat::PNG);
    let res = session.collect();
    assert_eq!(res.screenshots.len(), 1);
    assert_eq!(res.screenshots.get("shot").unwrap(), &vec![1u8, 2, 3]);
}

#[test]
fn runner_fan_out_preserves_order_and_isolates_failure() {
    let doc = simple_doc(
        "\n  q:\n    selector: \"//h1\"",
        " {}",
        "\n  - q",
    );
    let mut env = SessionEnv::new();
    env.pages.insert(
        "http://u1".to_string(),
        page_with_xpath("//h1", vec![element("one", "h1")]),
    );
    env.pages.insert(
        "http://u3".to_string(),
        page_with_xpath("//h1", vec![element("three", "h1")]),
    );
    let urls = vec![
        "http://u1".to_string(),
        "http://u2".to_string(),
        "http://u3".to_string(),
    ];
    let results = PipelineRunner::go(&doc, &urls, &env);
    assert_eq!(results.len(), 3);
    assert_eq!(results[0].elements.get("q").unwrap()[0].text, "one");
    assert_eq!(results[1].elements.len(), 0);
    assert_eq!(results[1].screenshots.len(), 0);
    assert_eq!(results[2].elements.get("q").unwrap()[0].text, "three");
}

#[test]
fn runner_with_bad_document_yields_empty_results() {
    let env = SessionEnv::new();
    let urls = vec!["http://u1".to_string()];
    let results = PipelineRunner::go("not: [valid", &urls, &env);
    assert_eq!(results.len(), 1);
    assert_eq!(results[0].elements.len(), 0);
}

#[test]
fn explicit_url_overrides_default() {
    let doc = simple_doc(
        "\n  q:\n    selector: \"//h1\"",
        " {}",
        "\n  - q",
    );
    let env = env_with("http://other", page_with_xpath("//h1", vec![element("o", "h1")]));
    let mut pipe = ScrapingPipeline::from_text(&doc, env).unwrap();
    let res = pipe.run(&"http://other".to_string());
    assert!(matches!(&pipe.session.calls[0], Command::Navigate { url } if url == "http://other"));
    assert_eq!(res.elements.get("q").unwrap()[0].text, "o");
}

#[test]
fn unknown_step_is_skipped() {
    let doc = simple_doc(
        "\n  q:\n    selector: \"//h1\"",
        " {}",
        "\n  - nothing\n  - q",
    );
    let env = env_with("file:///p.html", page_with_xpath("//h1", vec![element("Hi", "h1")]));
    let mut pipe = ScrapingPipeline::from_text(&doc, env).unwrap();
    let res = pipe.run(&"DEFAULT".to_string());
    // Only the navigation and the one resolvable step reach the session.
    assert_eq!(pipe.session.calls.len(), 2);
    assert_eq!(res.elements.len(), 1);
}

#[test]
fn screenshot_format_strings() {
    assert_eq!(format_of("JPEG"), ScreenshotFormat::JPEG);
    assert_eq!(format_of("PNG"), ScreenshotFormat::PNG);
    assert_eq!(format_of("anything"), ScreenshotFormat::PNG);
}

#[test]
fn element_from_flat_attribute_pairs() {
    let flat = vec![
        "href".to_string(),
        "x".to_string(),
        "class".to_string(),
        "y".to_string(),
    ];
    let el = element_from_flat("t".to_string(), "a".to_string(), &flat);
    assert_eq!(el.text, "t");
    assert_eq!(el.attrs.len(), 3);
    assert_eq!(el.attrs.get("href").unwrap(), "x");
    assert_eq!(el.attrs.get("class").unwrap(), "y");
    assert_eq!(el.attrs.get("tag").unwrap(), "a");
}

#[test]
fn element_from_flat_odd_tail_dropped() {
    let flat = vec!["href".to_string(), "x".to_string(), "dangling".to_string()];
    let el = element_from_flat("t".to_string(), "a".to_string(), &flat);
    assert_eq!(el.attrs.len(), 2);
    assert!(el.attrs.get("dangling").is_none());
}

#[test]
fn element_from_flat_later_pair_wins() {
    let flat = vec![
        "k".to_string(),
        "old".to_string(),
        "k".to_string(),
        "new".to_string(),
    ];
    let el = element_from_flat("t".to_string(), "a".to_string(), &flat);
    assert_eq!(el.attrs.len(), 2);
    assert_eq!(el.attrs.get("k").unwrap(), "new");
}

#[test]
fn strmap_insert_replaces_in_place() {
    let mut m: StrMap<String> = StrMap::new();
    m.insert("a".to_string(), "1".to_string());
    m.insert("b".to_string(), "2".to_string());
    m.insert("a".to_string(), "3".to_string());
    assert_eq!(m.len(), 2);
    assert_eq!(m.get("a").unwrap(), "3");
    let first = m.entry_at(0);
    assert_eq!(first.0, "a");
    assert_eq!(first.1, "3");
}

#[test]
fn action_summary_shows_discriminating_field() {
    let doc = simple_doc(
        " {}",
        "\n  click_submit:\n    selector: \"#go\"\n  wait1:\n    duration: 42\n  type_email:\n    target: \"#e\"\n    text: \"a@b\"",
        " []",
    );
    let cfg = load_config(&doc).unwrap();
    assert_eq!(cfg.actions.get("click_submit").unwrap().data_summary(), "#go");
    assert_eq!(cfg.actions.get("wait1").unwrap().data_summary(), "42");
    assert_eq!(cfg.actions.get("type_email").unwrap().data_summary(), "a@b");
}

#[test]
fn decimal_spelling() {
    assert_eq!(u32_to_string(0), "0");
    assert_eq!(u32_to_string(7), "7");
    assert_eq!(u32_to_string(105), "105");
    assert_eq!(u32_to_string(4294967295), "4294967295");
}

#[test]
fn save_and_screenshot_dispatched_through_run() {
    let doc = simple_doc(
        "\n  q:\n    selector: \"//h1\"",
        "\n  shot:\n    target: \"#q\"\n    format: JPEG\n  save_q:\n    targets: [q]\n    flatten: true",
        "\n  - q\n  - shot\n  - save_q",
    );
    let mut page = page_with_xpath("//h1", vec![element("Hi", "h1")]);
    page.shots.insert("#q".to_string(), vec![9, 9]);
    let env = env_with("file:///p.html", page);
    let mut pipe = ScrapingPipeline::from_text(&doc, env).unwrap();
    let res = pipe.run(&"DEFAULT".to_string());
    assert_eq!(res.screenshots.get("shot").unwrap(), &vec![9u8, 9]);
    assert_eq!(pipe.session.saved.len(), 1);
    let saved = &pipe.session.saved[0];
    assert_eq!(saved.stem, "p");
    match &saved.content {
        SaveContent::Flat(els) => {
            assert_eq!(els.len(), 1);
            assert_eq!(els[0].text, "Hi");
        }
        SaveContent::Keyed(_) => panic!("expected a flattened document"),
    }
}

#[test]
fn resolution_is_idempotent() {
    let doc = simple_doc(
        "\n  base:\n    selector: \"//p\"",
        " {}",
        "\n  - copy from base\n  - base",
    );
    let mut cfg = load_config(&doc).unwrap();
    webscrape::resolve::resolve_steps(&mut cfg);
    let steps_once = cfg.steps.clone();
    let targets_once = cfg.targets.len();
    webscrape::resolve::resolve_steps(&mut cfg);
    assert_eq!(cfg.steps, steps_once);
    assert_eq!(cfg.targets.len(), targets_once);
}

#[test]
fn sequential_aliases_see_earlier_registrations() {
    let doc = simple_doc(
        "\n  base:\n    selector: \"//p\"",
        " {}",
        "\n  - first from base\n  - second from first",
    );
    let mut cfg = load_config(&doc).unwrap();
    webscrape::resolve::resolve_steps(&mut cfg);
    assert!(cfg.targets.contains_key("first"));
    assert!(cfg.targets.contains_key("second"));
    assert_eq!(cfg.steps, vec!["first".to_string(), "second".to_string()]);
}
