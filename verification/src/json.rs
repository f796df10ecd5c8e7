use vstd::prelude::*;

use crate::dom::chars_to_string;
use crate::dom::str_to_chars;
use crate::records::CompanyRecord;
use crate::records::PitchRecord;

verus! {

/// The lower-case hexadecimal digit for a value below sixteen.
pub open spec fn hex_char(u: u32) -> char {
    if u == 0 {
        '0'
    } else if u == 1 {
        '1'
    } else if u == 2 {
        '2'
    } else if u == 3 {
        '3'
    } else if u == 4 {
        '4'
    } else if u == 5 {
        '5'
    } else if u == 6 {
        '6'
    } else if u == 7 {
        '7'
    } else if u == 8 {
        '8'
    } else if u == 9 {
        '9'
    } else if u == 10 {
        'a'
    } else if u == 11 {
        'b'
    } else if u == 12 {
        'c'
    } else if u == 13 {
        'd'
    } else if u == 14 {
        'e'
    } else {
        'f'
    }
}

/// How one character appears inside a JSON string literal: quote, backslash
/// and the named control characters get a two-character escape, the other
/// control characters a `\u00XX` escape, everything else stands verbatim.
pub open spec fn escape_char(c: char) -> Seq<char> {
    let u = c as u32;
    if u == 0x22 {
        seq!['\\', '"']
    } else if u == 0x5C {
        seq!['\\', '\\']
    } else if u == 0x08 {
        seq!['\\', 'b']
    } else if u == 0x0C {
        seq!['\\', 'f']
    } else if u == 0x0A {
        seq!['\\', 'n']
    } else if u == 0x0D {
        seq!['\\', 'r']
    } else if u == 0x09 {
        seq!['\\', 't']
    } else if u < 0x20 {
        seq!['\\', 'u', '0', '0', hex_char(u / 16), hex_char(u % 16)]
    } else {
        seq![c]
    }
}

/// A whole character sequence escaped for use inside a JSON string literal.
pub open spec fn escape_seq(s: Seq<char>) -> Seq<char>
    decreases s.len(),
{
    if s.len() == 0 {
        Seq::empty()
    } else {
        escape_char(s[0]) + escape_seq(s.drop_first())
    }
}

/// A JSON string literal: the escaped characters between double quotes.
pub open spec fn json_string(s: Seq<char>) -> Seq<char> {
    seq!['"'] + escape_seq(s) + seq!['"']
}

/// Already-rendered items joined with commas.
pub open spec fn join_comma(items: Seq<Seq<char>>) -> Seq<char>
    decreases items.len(),
{
    if items.len() == 0 {
        Seq::empty()
    } else if items.len() == 1 {
        items[0]
    } else {
        items[0] + seq![','] + join_comma(items.drop_first())
    }
}

/// One company record as a JSON object.
pub open spec fn company_json_of(c: CompanyRecord) -> Seq<char> {
    "{\"name\":"@ + json_string(c.name@) + ",\"description\":"@ + json_string(c.description@)
        + ",\"logoUrl\":"@ + json_string(c.logo_url@) + "}"@
}

/// One pitch record as a JSON object; its hashtags form a JSON array.
pub open spec fn pitch_json_of(p: PitchRecord) -> Seq<char> {
    "{\"name\":"@ + json_string(p.name@) + ",\"hashtags\":["@ + join_comma(
        p.hashtags.deep_view().map_values(|t: Seq<char>| json_string(t)),
    ) + "]}"@
}

/// A list of company records as a JSON array of objects.
pub open spec fn companies_json(rs: Seq<CompanyRecord>) -> Seq<char> {
    seq!['['] + join_comma(rs.map_values(|c: CompanyRecord| company_json_of(c))) + seq![']']
}

/// A list of pitch records as a JSON array of objects.
pub open spec fn pitches_json(rs: Seq<PitchRecord>) -> Seq<char> {
    seq!['['] + join_comma(rs.map_values(|p: PitchRecord| pitch_json_of(p))) + seq![']']
}

proof fn lemma_escape_push(s: Seq<char>, c: char)
    ensures
        escape_seq(s.push(c)) == escape_seq(s) + escape_char(c),
    decreases s.len(),
{
    if s.len() == 0 {
        assert(s.push(c).drop_first() =~= s);
        assert(escape_seq(s) == Seq::<char>::empty());
        assert(s.push(c)[0] == c);
        assert(escape_seq(s.push(c)) == escape_char(c) + escape_seq(s));
        Seq::add_empty_right(escape_char(c), escape_seq(s));
        Seq::add_empty_left(escape_seq(s), escape_char(c));
    } else {
        assert(s.push(c).drop_first() =~= s.drop_first().push(c));
        lemma_escape_push(s.drop_first(), c);
        assert(s.push(c)[0] == s[0]);
        assert(escape_seq(s.push(c)) == escape_char(s[0]) + (escape_seq(s.drop_first())
            + escape_char(c)));
        vstd::seq_lib::lemma_concat_associative(
            escape_char(s[0]),
            escape_seq(s.drop_first()),
            escape_char(c),
        );
    }
}

proof fn lemma_join_push(items: Seq<Seq<char>>, x: Seq<char>)
    ensures
        join_comma(items.push(x)) == if items.len() == 0 {
            x
        } else {
            join_comma(items) + seq![','] + x
        },
    decreases items.len(),
{
    if items.len() == 0 {
        assert(items.push(x)[0] == x);
        assert(join_comma(items.push(x)) == x);
    } else if items.len() == 1 {
        assert(items.push(x).drop_first() =~= seq![x]);
        assert(join_comma(seq![x]) == x);
        assert(items.push(x)[0] == items[0]);
        assert(join_comma(items) == items[0]);
        assert(join_comma(items.push(x)) == join_comma(items) + seq![','] + x);
    } else {
        assert(items.push(x).drop_first() =~= items.drop_first().push(x));
        lemma_join_push(items.drop_first(), x);
        let a = items[0] + seq![','];
        let b = join_comma(items.drop_first());
        let m = seq![','];
        assert(items.push(x)[0] == items[0]);
        assert(join_comma(items.push(x)) == a + ((b + m) + x));
        vstd::seq_lib::lemma_concat_associative(a, b + m, x);
        vstd::seq_lib::lemma_concat_associative(a, b, m);
        assert(join_comma(items) == a + b);
    }
}

fn hex_digit(u: u32) -> (c: char)
    requires
        u < 16,
    ensures
        c == hex_char(u),
{
    if u == 0 {
        '0'
    } else if u == 1 {
        '1'
    } else if u == 2 {
        '2'
    } else if u == 3 {
        '3'
    } else if u == 4 {
        '4'
    } else if u == 5 {
        '5'
    } else if u == 6 {
        '6'
    } else if u == 7 {
        '7'
    } else if u == 8 {
        '8'
    } else if u == 9 {
        '9'
    } else if u == 10 {
        'a'
    } else if u == 11 {
        'b'
    } else if u == 12 {
        'c'
    } else if u == 13 {
        'd'
    } else if u == 14 {
        'e'
    } else {
        'f'
    }
}

fn push_str(out: &mut Vec<char>, s: &str)
    ensures
        final(out)@ == old(out)@ + s@,
{
    let mut cs = str_to_chars(s);
    out.append(&mut cs);
}

fn push_escaped(out: &mut Vec<char>, s: &Vec<char>)
    ensures
        final(out)@ == old(out)@ + escape_seq(s@),
{
    let ghost orig = out@;
    let mut k: usize = 0;
    while k < s.len()
        invariant
            k <= s@.len(),
            out@ == orig + escape_seq(s@.subrange(0, k as int)),
        decreases s@.len() - k,
    {
        let c = s[k];
        let u = c as u32;
        if u == 0x22 {
            out.push('\\');
            out.push('"');
        } else if u == 0x5C {
            out.push('\\');
            out.push('\\');
        } else if u == 0x08 {
            out.push('\\');
            out.push('b');
        } else if u == 0x0C {
            out.push('\\');
            out.push('f');
        } else if u == 0x0A {
            out.push('\\');
            out.push('n');
        } else if u == 0x0D {
            out.push('\\');
            out.push('r');
        } else if u == 0x09 {
            out.push('\\');
            out.push('t');
        } else if u < 0x20 {
            out.push('\\');
            out.push('u');
            out.push('0');
            out.push('0');
            out.push(hex_digit(u / 16));
            out.push(hex_digit(u % 16));
        } else {
            out.push(c);
        }
        proof {
            assert(s@.subrange(0, k as int + 1) =~= s@.subrange(0, k as int).push(s@[k as int]));
            lemma_escape_push(s@.subrange(0, k as int), s@[k as int]);
            assert(out@ =~= orig + escape_seq(s@.subrange(0, k as int + 1)));
        }
        k += 1;
    }
    proof {
        assert(s@.subrange(0, s@.len() as int) =~= s@);
    }
}

fn push_json_string(out: &mut Vec<char>, s: &str)
    ensures
        final(out)@ == old(out)@ + json_string(s@),
{
    out.push('"');
    let cs = str_to_chars(s);
    push_escaped(out, &cs);
    out.push('"');
    proof {
        assert(out@ =~= old(out)@ + json_string(s@));
    }
}

fn push_company(out: &mut Vec<char>, c: &CompanyRecord)
    ensures
        final(out)@ == old(out)@ + company_json_of(*c),
{
    push_str(out, "{\"name\":");
    push_json_string(out, c.name.as_str());
    push_str(out, ",\"description\":");
    push_json_string(out, c.description.as_str());
    push_str(out, ",\"logoUrl\":");
    push_json_string(out, c.logo_url.as_str());
    push_str(out, "}");
    proof {
        assert(out@ =~= old(out)@ + company_json_of(*c));
    }
}

fn push_pitch(out: &mut Vec<char>, p: &PitchRecord)
    ensures
        final(out)@ == old(out)@ + pitch_json_of(*p),
{
    let ghost orig = out@;
    let ghost items = p.hashtags.deep_view().map_values(|t: Seq<char>| json_string(t));
    push_str(out, "{\"name\":");
    push_json_string(out, p.name.as_str());
    push_str(out, ",\"hashtags\":[");
    let ghost head = out@;
    let mut k: usize = 0;
    while k < p.hashtags.len()
        invariant
            k <= p.hashtags@.len(),
            items == p.hashtags.deep_view().map_values(|t: Seq<char>| json_string(t)),
            items.len() == p.hashtags@.len(),
            out@ == head + join_comma(items.subrange(0, k as int)),
        decreases p.hashtags@.len() - k,
    {
        if k > 0 {
            push_str(out, ",");
        }
        push_json_string(out, p.hashtags[k].as_str());
        proof {
            assert(p.hashtags.deep_view()[k as int] == p.hashtags@[k as int]@);
            assert(items[k as int] == json_string(p.hashtags@[k as int]@));
            assert(items.subrange(0, k as int + 1) =~= items.subrange(0, k as int).push(
                items[k as int],
            ));
            lemma_join_push(items.subrange(0, k as int), items[k as int]);
            reveal_strlit(",");
            assert(","@ =~= seq![',']);
            assert(out@ =~= head + join_comma(items.subrange(0, k as int + 1)));
        }
        k += 1;
    }
    push_str(out, "]}");
    proof {
        assert(items.subrange(0, items.len() as int) =~= items);
        assert(out@ =~= orig + pitch_json_of(*p));
    }
}

/// The JSON export of a company list: a compact array of objects with the
/// fields `name`, `description` and `logoUrl`, in list order.
pub fn companies_to_json(rs: &Vec<CompanyRecord>) -> (r: String)
    ensures
        r@ == companies_json(rs@),
{
    let ghost items = rs@.map_values(|c: CompanyRecord| company_json_of(c));
    let mut out: Vec<char> = Vec::new();
    out.push('[');
    let ghost head = out@;
    let mut k: usize = 0;
    while k < rs.len()
        invariant
            k <= rs@.len(),
            items == rs@.map_values(|c: CompanyRecord| company_json_of(c)),
            items.len() == rs@.len(),
            out@ == head + join_comma(items.subrange(0, k as int)),
        decreases rs@.len() - k,
    {
        if k > 0 {
            push_str(&mut out, ",");
        }
        push_company(&mut out, &rs[k]);
        proof {
            assert(items[k as int] == company_json_of(rs@[k as int]));
            assert(items.subrange(0, k as int + 1) =~= items.subrange(0, k as int).push(
                items[k as int],
            ));
            lemma_join_push(items.subrange(0, k as int), items[k as int]);
            reveal_strlit(",");
            assert(","@ =~= seq![',']);
            assert(out@ =~= head + join_comma(items.subrange(0, k as int + 1)));
        }
        k += 1;
    }
    out.push(']');
    proof {
        assert(items.subrange(0, items.len() as int) =~= items);
        assert(out@ =~= companies_json(rs@));
    }
    chars_to_string(&out)
}

/// The JSON export of a pitch list: a compact array of objects with the
/// fields `name` and `hashtags`, in list order.
pub fn pitches_to_json(rs: &Vec<PitchRecord>) -> (r: String)
    ensures
        r@ == pitches_json(rs@),
{
    let ghost items = rs@.map_values(|p: PitchRecord| pitch_json_of(p));
    let mut out: Vec<char> = Vec::new();
    out.push('[');
    let ghost head = out@;
    let mut k: usize = 0;
    while k < rs.len()
        invariant
            k <= rs@.len(),
            items == rs@.map_values(|p: PitchRecord| pitch_json_of(p)),
            items.len() == rs@.len(),
            out@ == head + join_comma(items.subrange(0, k as int)),
        decreases rs@.len() - k,
    {
        if k > 0 {
            push_str(&mut out, ",");
        }
        push_pitch(&mut out, &rs[k]);
        proof {
            assert(items[k as int] == pitch_json_of(rs@[k as int]));
            assert(items.subrange(0, k as int + 1) =~= items.subrange(0, k as int).push(
                items[k as int],
            ));
            lemma_join_push(items.subrange(0, k as int), items[k as int]);
            reveal_strlit(",");
            assert(","@ =~= seq![',']);
            assert(out@ =~= head + join_comma(items.subrange(0, k as int + 1)));
        }
        k += 1;
    }
    out.push(']');
    proof {
        assert(items.subrange(0, items.len() as int) =~= items);
        assert(out@ =~= pitches_json(rs@));
    }
    chars_to_string(&out)
}

} // verus!
