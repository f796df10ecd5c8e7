use pitch_scraper::pipeline::{
    on_event, parse_operation, start, Action, ConfigError, Event, Operation, Step,
};

const INDEX_TWO_LINKS: &str = "<table><tr>\
    <td><a href=\"/companies/acme\">Acme</a></td>\
    <td><a href=\"/companies/initech\">Initech</a></td>\
    </tr></table>";

const ACME_PAGE: &str = "<html><body>\
    <h1 class=\"company_name\"> Acme </h1>\
    <p class=\"investor_notes\">Traps.</p>\
    <div class=\"company_logo\"><img src=\"/acme.png\"></div>\
    </body></html>";

const INITECH_PAGE: &str = "<html><body>\
    <h1 class=\"company_name\">Initech</h1>\
    <p class=\"investor_notes\">Reports.</p>\
    <div class=\"company_logo\"><img src=\"/initech.png\"></div>\
    </body></html>";

fn body(s: &str) -> Event {
    Event::Body(String::from(s))
}

#[test]
fn commands_select_the_two_operations() {
    assert_eq!(parse_operation("companies"), Ok(Operation::Companies));
    assert_eq!(parse_operation("pitches"), Ok(Operation::Pitches));
    assert_eq!(parse_operation("frobnicate"), Err(ConfigError::UnknownCommand));
    assert_eq!(parse_operation(""), Err(ConfigError::UnknownCommand));
}

#[test]
fn start_fetches_the_fixed_index_url() {
    let (_, a) = start(Operation::Companies);
    match a {
        Action::Fetch(u) => assert_eq!(u, "http://pitchdeck.business/pitch_cards/mindfulness"),
        _ => panic!("expected a fetch"),
    }
    let (_, a) = start(Operation::Pitches);
    match a {
        Action::Fetch(u) => assert_eq!(u, "http://pitchdeck.business/company_cards/netflix"),
        _ => panic!("expected a fetch"),
    }
}

#[test]
fn failed_index_fetch_aborts_without_export() {
    let (p, _) = start(Operation::Companies);
    let (p, a) = on_event(p, Event::Failed);
    assert!(matches!(a, Action::Abort));
    assert!(matches!(p.step, Step::Aborted));
}

#[test]
fn index_without_links_exports_an_empty_array() {
    let (p, _) = start(Operation::Companies);
    let (_, a) = on_event(p, body("<table><tr><td>none</td></tr></table>"));
    match a {
        Action::Export { path, contents } => {
            assert_eq!(path, "companies.json");
            assert_eq!(contents, "[]");
        }
        _ => panic!("expected an export"),
    }
}

#[test]
fn missing_required_field_aborts_before_any_export() {
    let (p, _) = start(Operation::Companies);
    let (p, a) = on_event(p, body(INDEX_TWO_LINKS));
    assert!(matches!(a, Action::Fetch(_)));
    // the first detail page lacks the company-name selector entirely
    let (p, a) = on_event(p, body("<p class=\"investor_notes\">only notes</p>"));
    assert!(matches!(a, Action::Abort));
    assert!(matches!(p.step, Step::Aborted));
}

#[test]
fn two_valid_links_export_two_records_in_link_order() {
    let (p, a) = start(Operation::Companies);
    match a {
        Action::Fetch(u) => assert_eq!(u, "http://pitchdeck.business/pitch_cards/mindfulness"),
        _ => panic!("expected a fetch"),
    }
    let (p, a) = on_event(p, body(INDEX_TWO_LINKS));
    match &a {
        Action::Fetch(u) => assert_eq!(u, "http://pitchdeck.business/companies/acme"),
        _ => panic!("expected a fetch"),
    }
    let (p, a) = on_event(p, body(ACME_PAGE));
    match &a {
        Action::Fetch(u) => assert_eq!(u, "http://pitchdeck.business/companies/initech"),
        _ => panic!("expected a fetch"),
    }
    let (_, a) = on_event(p, body(INITECH_PAGE));
    match a {
        Action::Export { path, contents } => {
            assert_eq!(path, "companies.json");
            let v: serde_json::Value = serde_json::from_str(&contents).unwrap();
            let arr = v.as_array().unwrap();
            assert_eq!(arr.len(), 2);
            assert_eq!(arr[0]["name"].as_str().unwrap(), "Acme");
            assert_eq!(arr[0]["description"].as_str().unwrap(), "Traps.");
            assert_eq!(arr[0]["logoUrl"].as_str().unwrap(), "/acme.png");
            assert_eq!(arr[1]["name"].as_str().unwrap(), "Initech");
            assert_eq!(arr[1]["description"].as_str().unwrap(), "Reports.");
            assert_eq!(arr[1]["logoUrl"].as_str().unwrap(), "/initech.png");
        }
        _ => panic!("expected an export"),
    }
}

#[test]
fn pitch_pipeline_exports_names_and_hashtags() {
    let index = "<table><tr><td><a href=\"/pitches/1\">p</a></td></tr></table>";
    let page = "<html><body>\
        <h2 class=\"pitch_name\"><a href=\"/p/1\"> Great idea </a></h2>\
        <ul><li><a>alpha</a></li><li><a> beta </a></li></ul>\
        </body></html>";
    let (p, _) = start(Operation::Pitches);
    let (p, a) = on_event(p, body(index));
    match &a {
        Action::Fetch(u) => assert_eq!(u, "http://pitchdeck.business/pitches/1"),
        _ => panic!("expected a fetch"),
    }
    let (_, a) = on_event(p, body(page));
    match a {
        Action::Export { path, contents } => {
            assert_eq!(path, "pitches.json");
            assert_eq!(
                contents,
                "[{\"name\":\"Great idea\",\"hashtags\":[\"alpha\",\"beta\"]}]"
            );
        }
        _ => panic!("expected an export"),
    }
}

#[test]
fn failed_detail_fetch_aborts_the_run() {
    let (p, _) = start(Operation::Companies);
    let (p, _) = on_event(p, body(INDEX_TWO_LINKS));
    let (p, a) = on_event(p, Event::Failed);
    assert!(matches!(a, Action::Abort));
    assert!(matches!(p.step, Step::Aborted));
}
