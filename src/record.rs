//! The geolocation record of one address, and the JSON text it is served as.
use vstd::prelude::*;

verus! {

/// A name in each language: pairs of language code and name.
pub type Names = Vec<(String, String)>;

/// What the database holds for one address. Text fields that the database
/// lacks are empty, name groups that it lacks hold no pair. The coordinates are
/// kept as the JSON number text they are served as (`null` when unknown).
pub struct GeoRecord {
    pub latitude: String,
    pub longitude: String,
    pub time_zone: String,
    pub iso_code: String,
    pub city_names: Names,
    pub subdivision_names: Vec<Names>,
    pub country_names: Names,
    pub registered_country_names: Names,
}

/// The JSON string literal that serde_json writes for the text `s`.
pub uninterp spec fn json_string_of(s: Seq<char>) -> Seq<char>;

/// `s` as a JSON string literal.
pub open spec fn quoted(s: Seq<char>) -> Seq<char> {
    json_string_of(s)
}

pub open spec fn entry_text(p: (String, String)) -> Seq<char> {
    quoted(p.0@) + seq![':', ' '] + quoted(p.1@)
}

/// The members of a JSON object of names, separated by `, `.
pub open spec fn entries_text(p: Seq<(String, String)>) -> Seq<char>
    decreases p.len(),
{
    if p.len() == 0 {
        Seq::empty()
    } else if p.len() == 1 {
        entry_text(p[0])
    } else {
        entries_text(p.drop_last()) + seq![',', ' '] + entry_text(p.last())
    }
}

/// A JSON object from language code to name.
pub open spec fn names_text(p: Seq<(String, String)>) -> Seq<char> {
    seq!['{'] + entries_text(p) + seq!['}']
}

pub open spec fn subdivision_text(p: Names) -> Seq<char> {
    "{\"names\": "@ + names_text(p@) + seq!['}']
}

pub open spec fn subdivisions_items(s: Seq<Names>) -> Seq<char>
    decreases s.len(),
{
    if s.len() == 0 {
        Seq::empty()
    } else if s.len() == 1 {
        subdivision_text(s[0])
    } else {
        subdivisions_items(s.drop_last()) + seq![',', ' '] + subdivision_text(s.last())
    }
}

/// A JSON array of the subdivisions, outermost first.
pub open spec fn subdivisions_text(s: Seq<Names>) -> Seq<char> {
    seq!['['] + subdivisions_items(s) + seq![']']
}

/// The JSON text that a record is served as. Every group is present, empty
/// where the database holds nothing for it.
pub open spec fn record_text(r: &GeoRecord) -> Seq<char> {
    "{\"location\": {\"latitude\": "@ + r.latitude@ + ", \"longitude\": "@ + r.longitude@
        + ", \"time_zone\": "@ + quoted(r.time_zone@) + "}, \"country\": {\"iso_code\": "@
        + quoted(r.iso_code@) + ", \"names\": "@ + names_text(r.country_names@)
        + "}, \"registered_country\": {\"names\": "@ + names_text(r.registered_country_names@)
        + "}, \"city\": {\"names\": "@ + names_text(r.city_names@) + "}, \"subdivisions\": "@
        + subdivisions_text(r.subdivision_names@) + seq!['}']
}

/// Relies on String::push: the character is added at the end.
#[verifier::external_body]
fn push_char(out: &mut String, c: char)
    ensures
        final(out)@ == old(out)@.push(c),
{
    out.push(c)
}

/// Relies on serde_json::to_string: a `str` is written as a JSON string
/// literal, quoted and escaped; writing it into a buffer does not fail.
#[verifier::external_body]
fn json_quote(s: &str) -> (r: String)
    ensures
        r@ == json_string_of(s@),
{
    serde_json::to_string(s).unwrap_or_default()
}

/// Appends `s` as a JSON string literal.
pub fn push_quoted(out: &mut String, s: &str)
    ensures
        final(out)@ == old(out)@ + quoted(s@),
{
    let q = json_quote(s);
    out.append(q.as_str());
}

/// Appends a JSON object of names.
pub fn push_names(out: &mut String, names: &Names)
    ensures
        final(out)@ == old(out)@ + names_text(names@),
{
    let ghost start = out@;
    push_char(out, '{');
    let mut i: usize = 0;
    while i < names.len()
        invariant
            i <= names.len(),
            out@ == start + seq!['{'] + entries_text(names@.take(i as int)),
        decreases names.len() - i,
    {
        let ghost before = out@;
        if i > 0 {
            push_char(out, ',');
            push_char(out, ' ');
        }
        push_quoted(out, names[i].0.as_str());
        push_char(out, ':');
        push_char(out, ' ');
        push_quoted(out, names[i].1.as_str());
        assert(names@.take(i as int + 1).drop_last() =~= names@.take(i as int));
        if i > 0 {
            assert(out@ =~= before + seq![',', ' '] + entry_text(names@[i as int]));
        } else {
            assert(out@ =~= before + entry_text(names@[i as int]));
        }
        i = i + 1;
        assert(out@ =~= start + seq!['{'] + entries_text(names@.take(i as int)));
    }
    push_char(out, '}');
    assert(names@.take(i as int) =~= names@);
    assert(out@ =~= start + names_text(names@));
}

fn push_subdivisions(out: &mut String, subs: &Vec<Names>)
    ensures
        final(out)@ == old(out)@ + subdivisions_text(subs@),
{
    let ghost start = out@;
    push_char(out, '[');
    let mut i: usize = 0;
    while i < subs.len()
        invariant
            i <= subs.len(),
            out@ == start + seq!['['] + subdivisions_items(subs@.take(i as int)),
        decreases subs.len() - i,
    {
        let ghost before = out@;
        if i > 0 {
            push_char(out, ',');
            push_char(out, ' ');
        }
        out.append("{\"names\": ");
        push_names(out, &subs[i]);
        push_char(out, '}');
        assert(subs@.take(i as int + 1).drop_last() =~= subs@.take(i as int));
        if i > 0 {
            assert(out@ =~= before + seq![',', ' '] + subdivision_text(subs@[i as int]));
        } else {
            assert(out@ =~= before + subdivision_text(subs@[i as int]));
        }
        i = i + 1;
        assert(out@ =~= start + seq!['['] + subdivisions_items(subs@.take(i as int)));
    }
    push_char(out, ']');
    assert(subs@.take(i as int) =~= subs@);
    assert(out@ =~= start + subdivisions_text(subs@));
}

impl GeoRecord {
    /// The JSON text this record is served as.
    pub fn to_json(&self) -> (r: String)
        ensures
            r@ == record_text(self),
    {
        let mut out = String::new();
        out.append("{\"location\": {\"latitude\": ");
        out.append(self.latitude.as_str());
        out.append(", \"longitude\": ");
        out.append(self.longitude.as_str());
        out.append(", \"time_zone\": ");
        push_quoted(&mut out, self.time_zone.as_str());
        out.append("}, \"country\": {\"iso_code\": ");
        push_quoted(&mut out, self.iso_code.as_str());
        out.append(", \"names\": ");
        push_names(&mut out, &self.country_names);
        out.append("}, \"registered_country\": {\"names\": ");
        push_names(&mut out, &self.registered_country_names);
        out.append("}, \"city\": {\"names\": ");
        push_names(&mut out, &self.city_names);
        out.append("}, \"subdivisions\": ");
        push_subdivisions(&mut out, &self.subdivision_names);
        push_char(&mut out, '}');
        assert(out@ =~= record_text(self));
        out
    }
}

/// The fields of a database record as read, each absent where the database
/// lacks it. Coordinates are JSON number text.
pub struct RecordParts {
    pub latitude: Option<String>,
    pub longitude: Option<String>,
    pub time_zone: Option<String>,
    pub iso_code: Option<String>,
    pub city_names: Option<Names>,
    pub subdivision_names: Option<Vec<Option<Names>>>,
    pub country_names: Option<Names>,
    pub registered_country_names: Option<Names>,
}

/// A coordinate's text, `null` where it is absent.
pub open spec fn coordinate_or_null(c: Option<String>) -> Seq<char> {
    match c {
        Some(s) => s@,
        None => seq!['n', 'u', 'l', 'l'],
    }
}

/// A text field, empty where it is absent.
pub open spec fn text_or_empty(t: Option<String>) -> Seq<char> {
    match t {
        Some(s) => s@,
        None => Seq::empty(),
    }
}

/// A group of names, empty where it is absent.
pub open spec fn names_or_empty(n: Option<Names>) -> Seq<(String, String)> {
    match n {
        Some(v) => v@,
        None => Seq::empty(),
    }
}

/// Subdivisions as kept in a record: the subdivisions read, in their order,
/// each absent group of names empty; none where the field is absent.
pub open spec fn subdivisions_kept(s: Seq<Names>, read: Option<Vec<Option<Names>>>) -> bool {
    match read {
        Some(v) => s.len() == v@.len() && forall|i: int|
            0 <= i < s.len() ==> #[trigger] s[i]@ == names_or_empty(v@[i]),
        None => s.len() == 0,
    }
}

fn coordinate_of(c: Option<String>) -> (r: String)
    ensures
        r@ == coordinate_or_null(c),
{
    match c {
        Some(s) => s,
        None => {
            let r = String::from_str("null");
            proof {
                reveal_strlit("null");
            }
            assert(r@ =~= seq!['n', 'u', 'l', 'l']);
            r
        },
    }
}

fn text_of(t: Option<String>) -> (r: String)
    ensures
        r@ == text_or_empty(t),
{
    match t {
        Some(s) => s,
        None => String::new(),
    }
}

fn names_of(n: Option<Names>) -> (r: Names)
    ensures
        r@ == names_or_empty(n),
{
    match n {
        Some(v) => v,
        None => Vec::new(),
    }
}

/// Builds the record served for what was read: a field that the database
/// lacks degrades to an empty value (`null` for a coordinate), a field that it
/// holds is kept as read.
pub fn record_from_parts(p: RecordParts) -> (r: GeoRecord)
    ensures
        r.latitude@ == coordinate_or_null(p.latitude),
        r.longitude@ == coordinate_or_null(p.longitude),
        r.time_zone@ == text_or_empty(p.time_zone),
        r.iso_code@ == text_or_empty(p.iso_code),
        r.city_names@ == names_or_empty(p.city_names),
        subdivisions_kept(r.subdivision_names@, p.subdivision_names),
        r.country_names@ == names_or_empty(p.country_names),
        r.registered_country_names@ == names_or_empty(p.registered_country_names),
{
    let ghost read = p.subdivision_names;
    let mut subdivision_names: Vec<Names> = Vec::new();
    match p.subdivision_names {
        Some(mut subs) => {
            let ghost all = subs@;
            while subs.len() > 0
                invariant
                    read is Some && read->0@ == all,
                    subdivision_names.len() + subs.len() == all.len(),
                    subs@ == all.subrange(subdivision_names.len() as int, all.len() as int),
                    forall|i: int|
                        0 <= i < subdivision_names.len() ==> #[trigger] subdivision_names@[i]@
                            == names_or_empty(all[i]),
                decreases subs.len(),
            {
                let first = subs.remove(0);
                subdivision_names.push(names_of(first));
                assert(subs@ =~= all.subrange(subdivision_names.len() as int, all.len() as int));
            }
        },
        None => {},
    }
    GeoRecord {
        latitude: coordinate_of(p.latitude),
        longitude: coordinate_of(p.longitude),
        time_zone: text_of(p.time_zone),
        iso_code: text_of(p.iso_code),
        city_names: names_of(p.city_names),
        subdivision_names,
        country_names: names_of(p.country_names),
        registered_country_names: names_of(p.registered_country_names),
    }
}

} // verus!
