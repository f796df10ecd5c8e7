use pitch_scraper::json::{companies_to_json, pitches_to_json};
use pitch_scraper::records::{CompanyRecord, PitchRecord};

fn company(name: &str, description: &str, logo_url: &str) -> CompanyRecord {
    CompanyRecord {
        name: String::from(name),
        description: String::from(description),
        logo_url: String::from(logo_url),
    }
}

fn pitch(name: &str, hashtags: &[&str]) -> PitchRecord {
    PitchRecord {
        name: String::from(name),
        hashtags: hashtags.iter().map(|t| String::from(*t)).collect(),
    }
}

#[test]
fn empty_company_list_exports_as_empty_array() {
    assert_eq!(companies_to_json(&Vec::new()), "[]");
}

#[test]
fn one_company_exports_exactly() {
    let rs = vec![company("Acme", "Roadrunner traps", "/logo.png")];
    assert_eq!(
        companies_to_json(&rs),
        "[{\"name\":\"Acme\",\"description\":\"Roadrunner traps\",\"logoUrl\":\"/logo.png\"}]"
    );
}

#[test]
fn two_companies_export_in_list_order() {
    let rs = vec![company("A", "first", "/a"), company("B", "second", "/b")];
    let expected = String::from("[{\"name\":\"A\",\"description\":\"first\",\"logoUrl\":\"/a\"},")
        + "{\"name\":\"B\",\"description\":\"second\",\"logoUrl\":\"/b\"}]";
    assert_eq!(companies_to_json(&rs), expected);
}

#[test]
fn strings_are_escaped_like_json_requires() {
    let rs = vec![company("A\"B\\C", "line\nbreak\ttab", "ctl\u{01}end")];
    assert_eq!(
        companies_to_json(&rs),
        "[{\"name\":\"A\\\"B\\\\C\",\"description\":\"line\\nbreak\\ttab\",\"logoUrl\":\"ctl\\u0001end\"}]"
    );
}

#[test]
fn pitch_export_renders_hashtag_array() {
    let rs = vec![pitch("P", &["x", "y"]), pitch("Q", &[])];
    assert_eq!(
        pitches_to_json(&rs),
        "[{\"name\":\"P\",\"hashtags\":[\"x\",\"y\"]},{\"name\":\"Q\",\"hashtags\":[]}]"
    );
}

#[test]
fn export_reparses_with_identical_field_values() {
    let rs = vec![
        company("Acme \"quoted\"", "desc\\with\\slashes", "/l1.png"),
        company("Börsen AB", "non-ascii ok", "/l2.png"),
        company("", "", ""),
    ];
    let text = companies_to_json(&rs);
    let v: serde_json::Value = serde_json::from_str(&text).unwrap();
    let arr = v.as_array().unwrap();
    assert_eq!(arr.len(), rs.len());
    for (i, r) in rs.iter().enumerate() {
        assert_eq!(arr[i]["name"].as_str().unwrap(), r.name);
        assert_eq!(arr[i]["description"].as_str().unwrap(), r.description);
        assert_eq!(arr[i]["logoUrl"].as_str().unwrap(), r.logo_url);
    }
}

#[test]
fn pitch_export_reparses_with_identical_field_values() {
    let rs = vec![pitch("P one", &["a b", "c\"d"]), pitch("P two", &[])];
    let text = pitches_to_json(&rs);
    let v: serde_json::Value = serde_json::from_str(&text).unwrap();
    let arr = v.as_array().unwrap();
    assert_eq!(arr.len(), rs.len());
    for (i, r) in rs.iter().enumerate() {
        assert_eq!(arr[i]["name"].as_str().unwrap(), r.name);
        let tags = arr[i]["hashtags"].as_array().unwrap();
        assert_eq!(tags.len(), r.hashtags.len());
        for (j, t) in r.hashtags.iter().enumerate() {
            assert_eq!(tags[j].as_str().unwrap(), t);
        }
    }
}
