use pitch_scraper::extract::{extract_attr, extract_text, ExtractError};
use pitch_scraper::records::{assemble_company, assemble_pitch, discover_links};

#[test]
fn text_of_first_match_is_trimmed() {
    let html = "<html><body><div class=\"company_name\">  Acme Corp \n</div></body></html>";
    let r = extract_text(html, ".company_name");
    assert_eq!(r, Ok(String::from("Acme Corp")));
}

#[test]
fn text_concatenates_descendant_text_nodes() {
    let html = "<div class=\"company_name\"><span>Acme</span> <b>Corp</b></div>";
    let r = extract_text(html, ".company_name");
    assert_eq!(r, Ok(String::from("Acme Corp")));
}

#[test]
fn text_uses_only_the_first_match() {
    let html = "<p class=\"note\">first</p><p class=\"note\">second</p>";
    let r = extract_text(html, ".note");
    assert_eq!(r, Ok(String::from("first")));
}

#[test]
fn missing_text_selector_is_not_found() {
    let html = "<html><body><p>nothing here</p></body></html>";
    let r = extract_text(html, ".company_name");
    assert_eq!(r, Err(ExtractError::NotFound));
}

#[test]
fn invalid_selector_is_its_own_error() {
    let html = "<p>x</p>";
    assert_eq!(extract_text(html, "td >"), Err(ExtractError::InvalidSelector));
    assert_eq!(
        extract_attr(html, "td >", "href"),
        Err(ExtractError::InvalidSelector)
    );
}

#[test]
fn attribute_is_returned_verbatim_unstripped() {
    let html = "<div class=\"company_logo\"><img src=\" /logo.png \"></div>";
    let r = extract_attr(html, ".company_logo > img", "src");
    assert_eq!(r, Ok(String::from(" /logo.png ")));
}

#[test]
fn absent_attribute_is_not_found() {
    let html = "<div class=\"company_logo\"><img alt=\"logo\"></div>";
    let r = extract_attr(html, ".company_logo > img", "src");
    assert_eq!(r, Err(ExtractError::NotFound));
}

#[test]
fn discover_links_returns_all_hrefs_in_document_order() {
    let html = "<table><tr>\
        <td><a href=\"/companies/1\">one</a></td>\
        <td><a href=\"/companies/2\">two</a></td>\
        <td><a href=\"/companies/3\">three</a></td>\
        </tr></table>";
    let r = discover_links(html).unwrap();
    assert_eq!(
        r,
        vec![
            String::from("/companies/1"),
            String::from("/companies/2"),
            String::from("/companies/3"),
        ]
    );
}

#[test]
fn discover_links_with_no_anchors_is_empty() {
    let html = "<table><tr><td>no links at all</td></tr></table>";
    let r = discover_links(html).unwrap();
    assert_eq!(r, Vec::<String>::new());
}

#[test]
fn anchor_without_href_fails_the_whole_discovery() {
    let html = "<table><tr>\
        <td><a href=\"/ok\">one</a></td>\
        <td><a>broken</a></td>\
        </tr></table>";
    assert_eq!(discover_links(html), Err(ExtractError::NotFound));
}

#[test]
fn company_assembly_extracts_all_three_fields() {
    let html = "<html><body>\
        <h1 class=\"company_name\"> Initech </h1>\
        <p class=\"investor_notes\">\n  Makes TPS reports.  </p>\
        <div class=\"company_logo\"><img src=\"/img/initech.png\"></div>\
        </body></html>";
    let c = assemble_company(html).unwrap();
    assert_eq!(c.name, "Initech");
    assert_eq!(c.description, "Makes TPS reports.");
    assert_eq!(c.logo_url, "/img/initech.png");
}

#[test]
fn company_assembly_without_name_aborts() {
    let html = "<html><body>\
        <p class=\"investor_notes\">notes</p>\
        <div class=\"company_logo\"><img src=\"/x.png\"></div>\
        </body></html>";
    assert!(matches!(
        assemble_company(html),
        Err(ExtractError::NotFound)
    ));
}

#[test]
fn company_assembly_without_logo_src_aborts() {
    let html = "<html><body>\
        <h1 class=\"company_name\">A</h1>\
        <p class=\"investor_notes\">B</p>\
        <div class=\"company_logo\"><img></div>\
        </body></html>";
    assert!(matches!(
        assemble_company(html),
        Err(ExtractError::NotFound)
    ));
}

#[test]
fn pitch_assembly_keeps_hashtags_in_document_order() {
    let html = "<html><body>\
        <h2 class=\"pitch_name\"><a href=\"/p/1\"> Uber for cats </a></h2>\
        <ul><li><a href=\"/t/1\"> fintech </a></li><li><a href=\"/t/2\">pets</a></li></ul>\
        </body></html>";
    let p = assemble_pitch(html).unwrap();
    assert_eq!(p.name, "Uber for cats");
    assert_eq!(p.hashtags, vec![String::from("fintech"), String::from("pets")]);
}

#[test]
fn pitch_with_no_hashtags_is_valid_and_empty() {
    let html = "<h2 class=\"pitch_name\"><a href=\"/p/1\">Solo</a></h2>";
    let p = assemble_pitch(html).unwrap();
    assert_eq!(p.name, "Solo");
    assert_eq!(p.hashtags, Vec::<String>::new());
}

#[test]
fn pitch_without_name_aborts() {
    let html = "<ul><li><a>tag</a></li></ul>";
    assert!(matches!(
        assemble_pitch(html),
        Err(ExtractError::NotFound)
    ));
}

#[test]
fn unicode_whitespace_is_trimmed_from_text() {
    let html = "<div class=\"company_name\">\u{00A0}Spaced\u{00A0}</div>";
    let r = extract_text(html, ".company_name");
    assert_eq!(r, Ok(String::from("Spaced")));
}
