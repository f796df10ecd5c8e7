use vstd::prelude::*;

use crate::json::companies_json;
use crate::json::company_json_of;
use crate::json::escape_char;
use crate::json::escape_seq;
use crate::json::hex_char;
use crate::json::join_comma;
use crate::json::json_string;
use crate::json::pitch_json_of;
use crate::json::pitches_json;
use crate::records::CompanyRecord;
use crate::records::PitchRecord;

verus! {

/// The value of a lower-case hexadecimal digit; sixteen marks a non-digit.
pub open spec fn hex_val(c: char) -> u32 {
    let u = c as u32;
    if 0x30 <= u && u <= 0x39 {
        (u - 0x30) as u32
    } else if 0x61 <= u && u <= 0x66 {
        (u - 0x61 + 10) as u32
    } else {
        16
    }
}

pub open spec fn is_hex(c: char) -> bool {
    hex_val(c) < 16
}

/// The character a two-character escape stands for, by its second character.
pub open spec fn named_escape(e: u32) -> Option<char> {
    if e == 0x22 {
        Some('"')
    } else if e == 0x5C {
        Some('\\')
    } else if e == 0x62 {
        Some('\u{08}')
    } else if e == 0x66 {
        Some('\u{0C}')
    } else if e == 0x6E {
        Some('\n')
    } else if e == 0x72 {
        Some('\r')
    } else if e == 0x74 {
        Some('\t')
    } else {
        None
    }
}

/// Reads a JSON string body whose opening quote was already consumed:
/// the decoded content up to the closing quote, and what follows it.
pub open spec fn scan_string(s: Seq<char>) -> Option<(Seq<char>, Seq<char>)>
    decreases s.len(),
{
    if s.len() == 0 {
        None
    } else if s[0] as u32 == 0x22 {
        Some((Seq::empty(), s.drop_first()))
    } else if s[0] as u32 == 0x5C {
        if s.len() >= 2 && named_escape(s[1] as u32) is Some {
            match scan_string(s.subrange(2, s.len() as int)) {
                Some(p) => Some((seq![named_escape(s[1] as u32)->0] + p.0, p.1)),
                None => None,
            }
        } else if s.len() >= 6 && s[1] as u32 == 0x75 && s[2] as u32 == 0x30 && s[3] as u32 == 0x30
            && is_hex(s[4]) && is_hex(s[5]) {
            match scan_string(s.subrange(6, s.len() as int)) {
                Some(p) => Some(
                    (seq![(((16 * hex_val(s[4]) + hex_val(s[5])) as u32) as char)] + p.0, p.1),
                ),
                None => None,
            }
        } else {
            None
        }
    } else {
        match scan_string(s.drop_first()) {
            Some(p) => Some((seq![s[0]] + p.0, p.1)),
            None => None,
        }
    }
}

proof fn lemma_char_eq(a: char, b: char)
    requires
        a as u32 == b as u32,
    ensures
        a == b,
{
    vstd::utf8::char_u32_cast(a, a as u32);
    vstd::utf8::char_u32_cast(b, b as u32);
}

proof fn lemma_hex_round(x: u32)
    requires
        x < 16,
    ensures
        is_hex(hex_char(x)),
        hex_val(hex_char(x)) == x,
{
}

/// The scanner undoes the escaper: an escaped body followed by its closing
/// quote and anything else reads back as exactly the original content.
proof fn lemma_scan_escape(t: Seq<char>, rest: Seq<char>)
    ensures
        scan_string(escape_seq(t) + seq!['"'] + rest) == Some((t, rest)),
    decreases t.len(),
{
    broadcast use vstd::utf8::char_u32_cast;

    let s = escape_seq(t) + seq!['"'] + rest;
    if t.len() == 0 {
        assert(escape_seq(t) == Seq::<char>::empty());
        assert(s =~= seq!['"'] + rest);
        assert(s[0] as u32 == 0x22);
        assert(s.drop_first() =~= rest);
        assert(t =~= Seq::<char>::empty());
    } else {
        let c = t[0];
        let u = c as u32;
        let e = escape_char(c);
        let tail = escape_seq(t.drop_first()) + seq!['"'] + rest;
        lemma_escape_head(t);
        assert(s =~= e + tail);
        lemma_scan_escape(t.drop_first(), rest);
        if u == 0x22 || u == 0x5C {
            assert(e.len() == 2);
            assert(s[0] as u32 == 0x5C);
            if u == 0x22 {
                lemma_char_eq('"', c);
            } else {
                lemma_char_eq('\\', c);
            }
            assert(s[1] == c);
            assert(named_escape(s[1] as u32) == Some(c));
            assert(s.subrange(2, s.len() as int) =~= tail);
            assert(seq![c] + t.drop_first() =~= t);
        } else if u == 0x08 || u == 0x0C || u == 0x0A || u == 0x0D || u == 0x09 {
            assert(e.len() == 2);
            assert(s[0] as u32 == 0x5C);
            if u == 0x08 {
                lemma_char_eq('\u{08}', c);
            } else if u == 0x0C {
                lemma_char_eq('\u{0C}', c);
            } else if u == 0x0A {
                lemma_char_eq('\n', c);
            } else if u == 0x0D {
                lemma_char_eq('\r', c);
            } else {
                lemma_char_eq('\t', c);
            }
            assert(named_escape(s[1] as u32) == Some(c));
            assert(s.subrange(2, s.len() as int) =~= tail);
            assert(seq![c] + t.drop_first() =~= t);
        } else if u < 0x20 {
            assert(e.len() == 6);
            assert(s[0] as u32 == 0x5C);
            assert(s[1] as u32 == 0x75);
            assert(named_escape(0x75) is None);
            assert(s[2] as u32 == 0x30);
            assert(s[3] as u32 == 0x30);
            assert(s[4] == hex_char(u / 16));
            assert(s[5] == hex_char(u % 16));
            lemma_hex_round(u / 16);
            lemma_hex_round(u % 16);
            vstd::arithmetic::div_mod::lemma_fundamental_div_mod(u as int, 16);
            assert(16 * hex_val(s[4]) + hex_val(s[5]) == u);
            vstd::utf8::char_u32_cast(c, u);
            assert(((16 * hex_val(s[4]) + hex_val(s[5])) as u32) as char == c);
            assert(s.subrange(6, s.len() as int) =~= tail);
            assert(seq![c] + t.drop_first() =~= t);
        } else {
            assert(e =~= seq![c]);
            assert(s[0] == c);
            assert(s[0] as u32 != 0x22 && s[0] as u32 != 0x5C);
            assert(s.drop_first() =~= tail);
            assert(seq![c] + t.drop_first() =~= t);
        }
    }
}

/// The escaped form of a non-empty sequence starts with the escape of its
/// first character.
proof fn lemma_escape_head(t: Seq<char>)
    requires
        t.len() > 0,
    ensures
        escape_seq(t) == escape_char(t[0]) + escape_seq(t.drop_first()),
{
}

/// Consumes an expected literal prefix, yielding what follows it.
pub open spec fn expect(s: Seq<char>, p: Seq<char>) -> Option<Seq<char>> {
    if p.len() <= s.len() && s.subrange(0, p.len() as int) == p {
        Some(s.subrange(p.len() as int, s.len() as int))
    } else {
        None
    }
}

/// Reads one JSON string literal, quotes included.
pub open spec fn parse_string(s: Seq<char>) -> Option<(Seq<char>, Seq<char>)> {
    if s.len() > 0 && s[0] as u32 == 0x22 {
        scan_string(s.drop_first())
    } else {
        None
    }
}

/// Reads one company object as emitted here: the three field values and
/// what follows the closing brace.
pub open spec fn parse_company_fields(s: Seq<char>) -> Option<
    ((Seq<char>, Seq<char>, Seq<char>), Seq<char>),
> {
    match expect(s, "{\"name\":"@) {
        None => None,
        Some(s1) => match parse_string(s1) {
            None => None,
            Some((name, s2)) => match expect(s2, ",\"description\":"@) {
                None => None,
                Some(s3) => match parse_string(s3) {
                    None => None,
                    Some((description, s4)) => match expect(s4, ",\"logoUrl\":"@) {
                        None => None,
                        Some(s5) => match parse_string(s5) {
                            None => None,
                            Some((logo_url, s6)) => match expect(s6, "}"@) {
                                None => None,
                                Some(s7) => Some(((name, description, logo_url), s7)),
                            },
                        },
                    },
                },
            },
        },
    }
}

/// Reads the non-empty tail of a company array: objects separated by commas
/// up to the closing bracket, which must end the input.
pub open spec fn parse_company_list(s: Seq<char>, fuel: nat) -> Option<
    Seq<(Seq<char>, Seq<char>, Seq<char>)>,
>
    decreases fuel,
{
    match parse_company_fields(s) {
        None => None,
        Some((f, rest)) => if rest.len() > 0 && rest[0] as u32 == 0x5D {
            if rest.len() == 1 {
                Some(seq![f])
            } else {
                None
            }
        } else if rest.len() > 0 && rest[0] as u32 == 0x2C && fuel > 0 {
            match parse_company_list(rest.drop_first(), (fuel - 1) as nat) {
                None => None,
                Some(fs) => Some(seq![f] + fs),
            }
        } else {
            None
        },
    }
}

/// Reads a whole company export: the field values of each object, in array
/// order.
pub open spec fn parse_companies(s: Seq<char>) -> Option<
    Seq<(Seq<char>, Seq<char>, Seq<char>)>,
> {
    if s.len() > 0 && s[0] as u32 == 0x5B {
        let s1 = s.drop_first();
        if s1.len() == 1 && s1[0] as u32 == 0x5D {
            Some(Seq::empty())
        } else {
            parse_company_list(s1, s1.len())
        }
    } else {
        None
    }
}

/// The field values a company record serializes.
pub open spec fn company_fields(c: CompanyRecord) -> (Seq<char>, Seq<char>, Seq<char>) {
    (c.name@, c.description@, c.logo_url@)
}

proof fn lemma_expect_prefix(p: Seq<char>, rest: Seq<char>)
    ensures
        expect(p + rest, p) == Some(rest),
{
    assert((p + rest).subrange(0, p.len() as int) =~= p);
    assert((p + rest).subrange(p.len() as int, (p + rest).len() as int) =~= rest);
}

proof fn lemma_parse_json_string(t: Seq<char>, rest: Seq<char>)
    ensures
        parse_string(json_string(t) + rest) == Some((t, rest)),
{
    let s = json_string(t) + rest;
    assert(s.len() > 0 && s[0] as u32 == 0x22);
    assert(s.drop_first() =~= escape_seq(t) + seq!['"'] + rest);
    lemma_scan_escape(t, rest);
}

/// One emitted company object reads back as exactly its record's fields.
proof fn lemma_parse_company(c: CompanyRecord, rest: Seq<char>)
    ensures
        parse_company_fields(company_json_of(c) + rest) == Some((company_fields(c), rest)),
{
    let s = company_json_of(c) + rest;
    let r2 = ",\"description\":"@ + json_string(c.description@) + ",\"logoUrl\":"@ + json_string(
        c.logo_url@,
    ) + "}"@ + rest;
    let r3 = ",\"logoUrl\":"@ + json_string(c.logo_url@) + "}"@ + rest;
    let r4 = "}"@ + rest;
    assert(s =~= "{\"name\":"@ + (json_string(c.name@) + r2));
    lemma_expect_prefix("{\"name\":"@, json_string(c.name@) + r2);
    lemma_parse_json_string(c.name@, r2);
    assert(r2 =~= ",\"description\":"@ + (json_string(c.description@) + r3));
    lemma_expect_prefix(",\"description\":"@, json_string(c.description@) + r3);
    lemma_parse_json_string(c.description@, r3);
    assert(r3 =~= ",\"logoUrl\":"@ + (json_string(c.logo_url@) + r4));
    lemma_expect_prefix(",\"logoUrl\":"@, json_string(c.logo_url@) + r4);
    lemma_parse_json_string(c.logo_url@, r4);
    assert(r4 =~= "}"@ + rest);
    lemma_expect_prefix("}"@, rest);
}

proof fn lemma_join_min_len(items: Seq<Seq<char>>)
    requires
        forall|i: int| 0 <= i < items.len() ==> #[trigger] items[i].len() >= 1,
    ensures
        items.len() >= 1 ==> join_comma(items).len() >= items.len(),
    decreases items.len(),
{
    if items.len() >= 2 {
        let d = items.drop_first();
        assert(forall|i: int| 0 <= i < d.len() ==> #[trigger] d[i].len() >= 1);
        lemma_join_min_len(d);
    }
}

proof fn lemma_company_list(rs: Seq<CompanyRecord>, fuel: nat)
    requires
        rs.len() >= 1,
        fuel >= rs.len(),
    ensures
        parse_company_list(
            join_comma(rs.map_values(|c: CompanyRecord| company_json_of(c))) + seq![']'],
            fuel,
        ) == Some(rs.map_values(|c: CompanyRecord| company_fields(c))),
    decreases rs.len(),
{
    let items = rs.map_values(|c: CompanyRecord| company_json_of(c));
    let fields = rs.map_values(|c: CompanyRecord| company_fields(c));
    let s = join_comma(items) + seq![']'];
    if rs.len() == 1 {
        assert(join_comma(items) == items[0]);
        assert(s =~= company_json_of(rs[0]) + seq![']']);
        lemma_parse_company(rs[0], seq![']']);
        assert(seq![company_fields(rs[0])] =~= fields);
    } else {
        let d = rs.drop_first();
        let ditems = d.map_values(|c: CompanyRecord| company_json_of(c));
        assert(items.drop_first() =~= ditems);
        let tail_rest = seq![','] + (join_comma(ditems) + seq![']']);
        assert(s =~= company_json_of(rs[0]) + tail_rest);
        lemma_parse_company(rs[0], tail_rest);
        assert(tail_rest[0] as u32 == 0x2C);
        assert(tail_rest.drop_first() =~= join_comma(ditems) + seq![']']);
        lemma_company_list(d, (fuel - 1) as nat);
        assert(seq![company_fields(rs[0])] + d.map_values(
            |c: CompanyRecord| company_fields(c),
        ) =~= fields);
    }
}

/// Law: re-parsing a serialized company list yields exactly one object per
/// record, in list order, with identical field values.
pub proof fn lemma_companies_export_round_trip(rs: Seq<CompanyRecord>)
    ensures
        parse_companies(companies_json(rs)) == Some(
            rs.map_values(|c: CompanyRecord| company_fields(c)),
        ),
{
    reveal_strlit("{\"name\":");
    let items = rs.map_values(|c: CompanyRecord| company_json_of(c));
    let s = companies_json(rs);
    assert(s =~= seq!['['] + (join_comma(items) + seq![']']));
    assert(s[0] as u32 == 0x5B);
    let s1 = s.drop_first();
    assert(s1 =~= join_comma(items) + seq![']']);
    if rs.len() == 0 {
        assert(join_comma(items) == Seq::<char>::empty());
        assert(s1.len() == 1 && s1[0] as u32 == 0x5D);
        assert(rs.map_values(|c: CompanyRecord| company_fields(c)) =~= Seq::<
            (Seq<char>, Seq<char>, Seq<char>),
        >::empty());
    } else {
        assert("{\"name\":"@.len() == 8);
        assert(forall|i: int|
            0 <= i < items.len() ==> #[trigger] items[i].len() >= 1) by {
            assert(forall|i: int| 0 <= i < rs.len() ==> #[trigger] items[i]
                == company_json_of(rs[i]));
        }
        lemma_join_min_len(items);
        assert(join_comma(items)[0] == items[0][0]) by {
            if items.len() == 1 {
            } else {
                assert(join_comma(items) == items[0] + seq![','] + join_comma(
                    items.drop_first(),
                ));
            }
        }
        assert(items[0][0] == company_json_of(rs[0])[0]);
        assert(company_json_of(rs[0])[0] == "{\"name\":"@[0]);
        assert(s1[0] as u32 == 0x7B);
        assert(!(s1.len() == 1 && s1[0] as u32 == 0x5D));
        lemma_company_list(rs, s1.len());
    }
}

/// Reads the non-empty tail of a string array: strings separated by commas
/// up to the closing bracket, and what follows it.
pub open spec fn parse_tag_list(s: Seq<char>, fuel: nat) -> Option<(Seq<Seq<char>>, Seq<char>)>
    decreases fuel,
{
    match parse_string(s) {
        None => None,
        Some((t, rest)) => if rest.len() > 0 && rest[0] as u32 == 0x5D {
            Some((seq![t], rest.drop_first()))
        } else if rest.len() > 0 && rest[0] as u32 == 0x2C && fuel > 0 {
            match parse_tag_list(rest.drop_first(), (fuel - 1) as nat) {
                None => None,
                Some(p) => Some((seq![t] + p.0, p.1)),
            }
        } else {
            None
        },
    }
}

/// Reads one pitch object as emitted here: the name, the hashtag list, and
/// what follows the closing brace.
pub open spec fn parse_pitch_fields(s: Seq<char>) -> Option<
    ((Seq<char>, Seq<Seq<char>>), Seq<char>),
> {
    match expect(s, "{\"name\":"@) {
        None => None,
        Some(s1) => match parse_string(s1) {
            None => None,
            Some((name, s2)) => match expect(s2, ",\"hashtags\":["@) {
                None => None,
                Some(s3) => if s3.len() > 0 && s3[0] as u32 == 0x5D {
                    match expect(s3, "]}"@) {
                        None => None,
                        Some(s4) => Some(((name, Seq::empty()), s4)),
                    }
                } else {
                    match parse_tag_list(s3, s3.len()) {
                        None => None,
                        Some((tags, s4)) => match expect(s4, "}"@) {
                            None => None,
                            Some(s5) => Some(((name, tags), s5)),
                        },
                    }
                },
            },
        },
    }
}

/// Reads the non-empty tail of a pitch array, which must end the input.
pub open spec fn parse_pitch_list(s: Seq<char>, fuel: nat) -> Option<
    Seq<(Seq<char>, Seq<Seq<char>>)>,
>
    decreases fuel,
{
    match parse_pitch_fields(s) {
        None => None,
        Some((f, rest)) => if rest.len() > 0 && rest[0] as u32 == 0x5D {
            if rest.len() == 1 {
                Some(seq![f])
            } else {
                None
            }
        } else if rest.len() > 0 && rest[0] as u32 == 0x2C && fuel > 0 {
            match parse_pitch_list(rest.drop_first(), (fuel - 1) as nat) {
                None => None,
                Some(fs) => Some(seq![f] + fs),
            }
        } else {
            None
        },
    }
}

/// Reads a whole pitch export: the field values of each object, in array
/// order.
pub open spec fn parse_pitches(s: Seq<char>) -> Option<Seq<(Seq<char>, Seq<Seq<char>>)>> {
    if s.len() > 0 && s[0] as u32 == 0x5B {
        let s1 = s.drop_first();
        if s1.len() == 1 && s1[0] as u32 == 0x5D {
            Some(Seq::empty())
        } else {
            parse_pitch_list(s1, s1.len())
        }
    } else {
        None
    }
}

/// The field values a pitch record serializes.
pub open spec fn pitch_fields(p: PitchRecord) -> (Seq<char>, Seq<Seq<char>>) {
    (p.name@, p.hashtags.deep_view())
}

proof fn lemma_tag_list(tags: Seq<Seq<char>>, rest: Seq<char>, fuel: nat)
    requires
        tags.len() >= 1,
        fuel >= tags.len(),
    ensures
        parse_tag_list(
            join_comma(tags.map_values(|t: Seq<char>| json_string(t))) + seq![']'] + rest,
            fuel,
        ) == Some((tags, rest)),
    decreases tags.len(),
{
    let items = tags.map_values(|t: Seq<char>| json_string(t));
    let s = join_comma(items) + seq![']'] + rest;
    if tags.len() == 1 {
        assert(join_comma(items) == items[0]);
        assert(s =~= json_string(tags[0]) + (seq![']'] + rest));
        lemma_parse_json_string(tags[0], seq![']'] + rest);
        assert((seq![']'] + rest).drop_first() =~= rest);
        assert(seq![tags[0]] =~= tags);
    } else {
        let d = tags.drop_first();
        let ditems = d.map_values(|t: Seq<char>| json_string(t));
        assert(items.drop_first() =~= ditems);
        let tail_rest = seq![','] + (join_comma(ditems) + seq![']'] + rest);
        assert(s =~= json_string(tags[0]) + tail_rest);
        lemma_parse_json_string(tags[0], tail_rest);
        assert(tail_rest[0] as u32 == 0x2C);
        assert(tail_rest.drop_first() =~= join_comma(ditems) + seq![']'] + rest);
        lemma_tag_list(d, rest, (fuel - 1) as nat);
        assert(seq![tags[0]] + d =~= tags);
    }
}

/// One emitted pitch object reads back as exactly its record's fields.
proof fn lemma_parse_pitch(p: PitchRecord, rest: Seq<char>)
    ensures
        parse_pitch_fields(pitch_json_of(p) + rest) == Some((pitch_fields(p), rest)),
{
    reveal_strlit("]}");
    reveal_strlit("}");
    let tags = p.hashtags.deep_view();
    let items = tags.map_values(|t: Seq<char>| json_string(t));
    let s = pitch_json_of(p) + rest;
    let r2 = ",\"hashtags\":["@ + (join_comma(items) + "]}"@ + rest);
    assert(s =~= "{\"name\":"@ + (json_string(p.name@) + r2));
    lemma_expect_prefix("{\"name\":"@, json_string(p.name@) + r2);
    lemma_parse_json_string(p.name@, r2);
    let s3 = join_comma(items) + "]}"@ + rest;
    assert(r2 =~= ",\"hashtags\":["@ + s3);
    lemma_expect_prefix(",\"hashtags\":["@, s3);
    assert("]}"@ =~= seq![']'] + "}"@);
    if tags.len() == 0 {
        assert(join_comma(items) == Seq::<char>::empty());
        assert(s3 =~= "]}"@ + rest);
        assert(s3[0] as u32 == 0x5D);
        lemma_expect_prefix("]}"@, rest);
        assert(pitch_fields(p).1 =~= Seq::<Seq<char>>::empty());
    } else {
        assert(forall|i: int|
            0 <= i < items.len() ==> #[trigger] items[i].len() >= 1) by {
            assert(forall|i: int| 0 <= i < tags.len() ==> #[trigger] items[i] == json_string(
                tags[i],
            ));
        }
        lemma_join_min_len(items);
        assert(join_comma(items)[0] == items[0][0]) by {
            if items.len() == 1 {
            } else {
                assert(join_comma(items) == items[0] + seq![','] + join_comma(
                    items.drop_first(),
                ));
            }
        }
        assert(items[0][0] as u32 == 0x22);
        assert(s3[0] as u32 == 0x22);
        let rest2 = "}"@ + rest;
        assert(s3 =~= join_comma(items) + seq![']'] + rest2);
        lemma_tag_list(tags, rest2, s3.len());
        lemma_expect_prefix("}"@, rest);
    }
}

proof fn lemma_pitch_list(rs: Seq<PitchRecord>, fuel: nat)
    requires
        rs.len() >= 1,
        fuel >= rs.len(),
    ensures
        parse_pitch_list(
            join_comma(rs.map_values(|p: PitchRecord| pitch_json_of(p))) + seq![']'],
            fuel,
        ) == Some(rs.map_values(|p: PitchRecord| pitch_fields(p))),
    decreases rs.len(),
{
    let items = rs.map_values(|p: PitchRecord| pitch_json_of(p));
    let fields = rs.map_values(|p: PitchRecord| pitch_fields(p));
    let s = join_comma(items) + seq![']'];
    if rs.len() == 1 {
        assert(join_comma(items) == items[0]);
        assert(s =~= pitch_json_of(rs[0]) + seq![']']);
        lemma_parse_pitch(rs[0], seq![']']);
        assert(seq![pitch_fields(rs[0])] =~= fields);
    } else {
        let d = rs.drop_first();
        let ditems = d.map_values(|p: PitchRecord| pitch_json_of(p));
        assert(items.drop_first() =~= ditems);
        let tail_rest = seq![','] + (join_comma(ditems) + seq![']']);
        assert(s =~= pitch_json_of(rs[0]) + tail_rest);
        lemma_parse_pitch(rs[0], tail_rest);
        assert(tail_rest[0] as u32 == 0x2C);
        assert(tail_rest.drop_first() =~= join_comma(ditems) + seq![']']);
        lemma_pitch_list(d, (fuel - 1) as nat);
        assert(seq![pitch_fields(rs[0])] + d.map_values(
            |p: PitchRecord| pitch_fields(p),
        ) =~= fields);
    }
}

/// Law: re-parsing a serialized pitch list yields exactly one object per
/// record, in list order, with identical name and hashtag values.
pub proof fn lemma_pitches_export_round_trip(rs: Seq<PitchRecord>)
    ensures
        parse_pitches(pitches_json(rs)) == Some(
            rs.map_values(|p: PitchRecord| pitch_fields(p)),
        ),
{
    reveal_strlit("{\"name\":");
    let items = rs.map_values(|p: PitchRecord| pitch_json_of(p));
    let s = pitches_json(rs);
    assert(s =~= seq!['['] + (join_comma(items) + seq![']']));
    assert(s[0] as u32 == 0x5B);
    let s1 = s.drop_first();
    assert(s1 =~= join_comma(items) + seq![']']);
    if rs.len() == 0 {
        assert(join_comma(items) == Seq::<char>::empty());
        assert(s1.len() == 1 && s1[0] as u32 == 0x5D);
        assert(rs.map_values(|p: PitchRecord| pitch_fields(p)) =~= Seq::<
            (Seq<char>, Seq<Seq<char>>),
        >::empty());
    } else {
        assert("{\"name\":"@.len() == 8);
        assert(forall|i: int|
            0 <= i < items.len() ==> #[trigger] items[i].len() >= 1) by {
            assert(forall|i: int| 0 <= i < rs.len() ==> #[trigger] items[i] == pitch_json_of(
                rs[i],
            ));
        }
        lemma_join_min_len(items);
        assert(join_comma(items)[0] == items[0][0]) by {
            if items.len() == 1 {
            } else {
                assert(join_comma(items) == items[0] + seq![','] + join_comma(
                    items.drop_first(),
                ));
            }
        }
        assert(items[0][0] == pitch_json_of(rs[0])[0]);
        assert(pitch_json_of(rs[0])[0] == "{\"name\":"@[0]);
        assert(s1[0] as u32 == 0x7B);
        assert(!(s1.len() == 1 && s1[0] as u32 == 0x5D));
        lemma_pitch_list(rs, s1.len());
    }
}

} // verus!
