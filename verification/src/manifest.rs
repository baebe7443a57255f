//! The bundle manifest's text form: a pretty-printed JSON document with
//! stable key names and stable field order, written and parsed by verified
//! code. The writer and the parser are both specified against the same
//! mathematical document shape, and a round-trip law ties them together.

use vstd::prelude::*;
use vstd::string::{StrSliceExecFns, StringExecFns};
use crate::pack_list::PackList;
use crate::text::{digit_char, dec_digits, digit_of, push_char, push_decimal};

verus! {

/// One output record of the manifest, exec form.
pub struct Painting {
    pub id: String,
    pub filename: String,
    pub name: String,
    pub artist: String,
    pub width: u32,
    pub height: u32,
}

/// The mathematical value of one record.
#[verifier::ext_equal]
pub ghost struct RecordV {
    pub id: Seq<char>,
    pub filename: Seq<char>,
    pub name: Seq<char>,
    pub artist: Seq<char>,
    pub width: u32,
    pub height: u32,
}

impl View for Painting {
    type V = RecordV;

    open spec fn view(&self) -> RecordV {
        RecordV {
            id: self.id@,
            filename: self.filename@,
            name: self.name@,
            artist: self.artist@,
            width: self.width,
            height: self.height,
        }
    }
}

/// The mathematical value of a whole manifest document.
#[verifier::ext_equal]
pub ghost struct ManifestV {
    pub name: Seq<char>,
    pub schema: Seq<char>,
    pub version: Seq<char>,
    pub id: Seq<char>,
    pub description: Seq<char>,
    pub records: Seq<RecordV>,
}

/// The record views of a record list, in order.
pub open spec fn views_of(s: Seq<Painting>) -> Seq<RecordV> {
    s.map_values(|p: Painting| p@)
}

/// The document value of a pack.
pub open spec fn pack_view(p: &PackList<Painting>) -> ManifestV {
    ManifestV {
        name: p.pack_name@,
        schema: p.schema@,
        version: p.version@,
        id: p.id@,
        description: p.description@,
        records: views_of(p.paintings@),
    }
}

/// The lowercase hex digit character for `d < 16`.
pub open spec fn hex_char(d: int) -> char {
    if d < 10 {
        digit_char(d)
    } else if d == 10 {
        'a'
    } else if d == 11 {
        'b'
    } else if d == 12 {
        'c'
    } else if d == 13 {
        'd'
    } else if d == 14 {
        'e'
    } else {
        'f'
    }
}

/// How one character appears inside a JSON string literal: quote and
/// backslash are escaped, the five short control escapes are used where they
/// exist, other control characters become `\u00XX`, and everything else is
/// written as itself.
pub open spec fn escape_char(c: char) -> Seq<char> {
    if c == '"' {
        seq!['\\', '"']
    } else if c == '\\' {
        seq!['\\', '\\']
    } else if c == '\u{8}' {
        seq!['\\', 'b']
    } else if c == '\u{c}' {
        seq!['\\', 'f']
    } else if c == '\n' {
        seq!['\\', 'n']
    } else if c == '\r' {
        seq!['\\', 'r']
    } else if c == '\t' {
        seq!['\\', 't']
    } else if (c as u32) < 0x20 {
        seq!['\\', 'u', '0', '0', hex_char((c as u32) as int / 16), hex_char((c as u32) as int % 16)]
    } else {
        seq![c]
    }
}

/// A whole string body, escaped character by character.
pub open spec fn escape_str(s: Seq<char>) -> Seq<char>
    decreases s.len(),
{
    if s.len() == 0 {
        Seq::empty()
    } else {
        escape_str(s.drop_last()) + escape_char(s.last())
    }
}

/// A JSON string literal: the escaped body between double quotes.
pub open spec fn quoted(s: Seq<char>) -> Seq<char> {
    seq!['"'] + escape_str(s) + seq!['"']
}

/// One record as pretty-printed JSON, at list-element indentation.
pub open spec fn record_json(r: RecordV) -> Seq<char> {
    "    {\n      \"id\": "@ + quoted(r.id) + ",\n      \"filename\": "@ + quoted(r.filename)
        + ",\n      \"name\": "@ + quoted(r.name) + ",\n      \"artist\": "@ + quoted(r.artist)
        + ",\n      \"width\": "@ + dec_digits(r.width as int) + ",\n      \"height\": "@
        + dec_digits(r.height as int) + "\n    }"@
}

/// The comma-separated record elements.
pub open spec fn records_json(rs: Seq<RecordV>) -> Seq<char>
    decreases rs.len(),
{
    if rs.len() == 0 {
        Seq::empty()
    } else if rs.len() == 1 {
        record_json(rs[0])
    } else {
        records_json(rs.drop_last()) + ",\n"@ + record_json(rs.last())
    }
}

/// The `paintings` array: `[]` when empty, otherwise one element per line.
pub open spec fn paintings_json(rs: Seq<RecordV>) -> Seq<char> {
    if rs.len() == 0 {
        "[]"@
    } else {
        "[\n"@ + records_json(rs) + "\n  ]"@
    }
}

/// The whole document: fixed key order `name`, `$schema`, `version`, `id`,
/// `description`, `paintings`, pretty-printed with two-space indentation.
pub open spec fn json_of(m: ManifestV) -> Seq<char> {
    "{\n  \"name\": "@ + quoted(m.name) + ",\n  \"$schema\": "@ + quoted(m.schema)
        + ",\n  \"version\": "@ + quoted(m.version) + ",\n  \"id\": "@ + quoted(m.id)
        + ",\n  \"description\": "@ + quoted(m.description) + ",\n  \"paintings\": "@
        + paintings_json(m.records) + "\n}"@
}

/// The lowercase hex digit for `d < 16`.
pub fn hex_of(d: u32) -> (c: char)
    requires
        d < 16,
    ensures
        c == hex_char(d as int),
{
    if d < 10 {
        digit_of(d)
    } else if d == 10 {
        'a'
    } else if d == 11 {
        'b'
    } else if d == 12 {
        'c'
    } else if d == 13 {
        'd'
    } else if d == 14 {
        'e'
    } else {
        'f'
    }
}

/// Append `s` as a JSON string literal, escaping as `escape_char` describes.
pub fn push_quoted(out: &mut String, s: &str)
    ensures
        final(out)@ == old(out)@ + quoted(s@),
{
    push_char(out, '"');
    let n = s.unicode_len();
    let mut i: usize = 0;
    while i < n
        invariant
            n == s@.len(),
            0 <= i <= n,
            out@ == old(out)@ + seq!['"'] + escape_str(s@.take(i as int)),
        decreases n - i,
    {
        let c = s.get_char(i);
        if c == '"' {
            push_char(out, '\\');
            push_char(out, '"');
        } else if c == '\\' {
            push_char(out, '\\');
            push_char(out, '\\');
        } else if c == '\u{8}' {
            push_char(out, '\\');
            push_char(out, 'b');
        } else if c == '\u{c}' {
            push_char(out, '\\');
            push_char(out, 'f');
        } else if c == '\n' {
            push_char(out, '\\');
            push_char(out, 'n');
        } else if c == '\r' {
            push_char(out, '\\');
            push_char(out, 'r');
        } else if c == '\t' {
            push_char(out, '\\');
            push_char(out, 't');
        } else {
            let u = c as u32;
            if u < 0x20 {
                push_char(out, '\\');
                push_char(out, 'u');
                push_char(out, '0');
                push_char(out, '0');
                push_char(out, hex_of(u / 16));
                push_char(out, hex_of(u % 16));
            } else {
                push_char(out, c);
            }
        }
        proof {
            assert(s@.take(i + 1 as int).drop_last() =~= s@.take(i as int));
            assert(s@.take(i + 1 as int).last() == s@[i as int]);
            assert(out@ =~= old(out)@ + seq!['"'] + escape_str(s@.take(i + 1 as int)));
        }
        i = i + 1;
    }
    push_char(out, '"');
    proof {
        assert(s@.take(n as int) =~= s@);
        assert(out@ =~= old(out)@ + quoted(s@));
    }
}

/// Append one record as pretty-printed JSON.
fn push_record(out: &mut String, p: &Painting)
    ensures
        final(out)@ == old(out)@ + record_json(p@),
{
    out.append("    {\n      \"id\": ");
    push_quoted(out, p.id.as_str());
    out.append(",\n      \"filename\": ");
    push_quoted(out, p.filename.as_str());
    out.append(",\n      \"name\": ");
    push_quoted(out, p.name.as_str());
    out.append(",\n      \"artist\": ");
    push_quoted(out, p.artist.as_str());
    out.append(",\n      \"width\": ");
    push_decimal(out, p.width);
    out.append(",\n      \"height\": ");
    push_decimal(out, p.height);
    out.append("\n    }");
    proof {
        assert(out@ =~= old(out)@ + record_json(p@));
    }
}

/// Serialize the pack to its manifest document: stable key names, record
/// insertion order preserved, pretty-printed with stable field order.
pub fn manifest_to_json(pack: &PackList<Painting>) -> (r: String)
    ensures
        r@ == json_of(pack_view(pack)),
{
    let mut out = String::from_str("{\n  \"name\": ");
    push_quoted(&mut out, pack.pack_name.as_str());
    out.append(",\n  \"$schema\": ");
    push_quoted(&mut out, pack.schema.as_str());
    out.append(",\n  \"version\": ");
    push_quoted(&mut out, pack.version.as_str());
    out.append(",\n  \"id\": ");
    push_quoted(&mut out, pack.id.as_str());
    out.append(",\n  \"description\": ");
    push_quoted(&mut out, pack.description.as_str());
    out.append(",\n  \"paintings\": ");
    let ghost head = out@;
    let n = pack.paintings.len();
    if n == 0 {
        out.append("[]");
        proof {
            assert(views_of(pack.paintings@).len() == 0);
            assert(out@ =~= head + paintings_json(pack_view(pack).records));
        }
    } else {
        out.append("[\n");
        let mut i: usize = 0;
        while i < n
            invariant
                n == pack.paintings@.len(),
                0 < n,
                0 <= i <= n,
                out@ == head + "[\n"@ + records_json(views_of(pack.paintings@.take(i as int))),
            decreases n - i,
        {
            if i > 0 {
                out.append(",\n");
            }
            push_record(&mut out, &pack.paintings[i]);
            proof {
                let vs1 = views_of(pack.paintings@.take(i + 1 as int));
                assert(vs1.drop_last() =~= views_of(pack.paintings@.take(i as int)));
                assert(vs1.last() == pack.paintings@[i as int]@);
                assert(out@ =~= head + "[\n"@ + records_json(vs1));
            }
            i = i + 1;
        }
        out.append("\n  ]");
        proof {
            assert(pack.paintings@.take(n as int) =~= pack.paintings@);
            assert(views_of(pack.paintings@).len() > 0);
            assert(out@ =~= head + paintings_json(pack_view(pack).records));
        }
    }
    out.append("\n}");
    proof {
        assert(out@ =~= json_of(pack_view(pack)));
    }
    out
}

/// A lowercase hexadecimal digit.
pub open spec fn is_hex_char(c: char) -> bool {
    let u = c as u32;
    (0x30 <= u && u <= 0x39) || (0x61 <= u && u <= 0x66)
}

/// The value of a lowercase hexadecimal digit.
pub open spec fn hex_val(c: char) -> int {
    let u = c as u32;
    if u <= 0x39 {
        u - 0x30
    } else {
        u - 0x61 + 10
    }
}

/// A decimal digit.
pub open spec fn is_digit_char(c: char) -> bool {
    let u = c as u32;
    0x30 <= u && u <= 0x39
}

/// The value of a decimal digit.
pub open spec fn digit_val(c: char) -> int {
    (c as u32) - 0x30
}

/// The number written by a run of decimal digits, most significant first.
pub open spec fn dec_value(d: Seq<char>) -> int
    decreases d.len(),
{
    if d.len() == 0 {
        0
    } else {
        dec_value(d.drop_last()) * 10 + digit_val(d.last())
    }
}

/// The single character written by a short escape code, if the code exists.
pub open spec fn escape_code(e: char) -> Option<char> {
    if e == '"' {
        Some('"')
    } else if e == '\\' {
        Some('\\')
    } else if e == 'b' {
        Some('\u{8}')
    } else if e == 'f' {
        Some('\u{c}')
    } else if e == 'n' {
        Some('\n')
    } else if e == 'r' {
        Some('\r')
    } else if e == 't' {
        Some('\t')
    } else {
        None
    }
}

/// Expect the exact text `lit` at index `i` of `s`; the index after it.
pub open spec fn parse_lit(s: Seq<char>, i: int, lit: Seq<char>) -> Option<int> {
    if 0 <= i && i + lit.len() <= s.len() && s.subrange(i, i + lit.len()) == lit {
        Some(i + lit.len())
    } else {
        None
    }
}

/// Parse a JSON string body starting just after the opening quote: the
/// unescaped content and the index just after the closing quote.
pub open spec fn parse_string_body(s: Seq<char>, i: int) -> Option<(Seq<char>, int)>
    decreases s.len() - i,
{
    if !(0 <= i && i < s.len()) {
        None
    } else if s[i] == '"' {
        Some((Seq::empty(), i + 1))
    } else if s[i] == '\\' {
        if i + 2 <= s.len() {
            let e = s[i + 1];
            if e == 'u' {
                if i + 6 <= s.len() && s[i + 2] == '0' && s[i + 3] == '0' && is_hex_char(s[i + 4])
                    && is_hex_char(s[i + 5]) {
                    let c = ((hex_val(s[i + 4]) * 16 + hex_val(s[i + 5])) as u32) as char;
                    match parse_string_body(s, i + 6) {
                        Some((t, j)) => Some((seq![c] + t, j)),
                        None => None,
                    }
                } else {
                    None
                }
            } else {
                match escape_code(e) {
                    Some(c) => match parse_string_body(s, i + 2) {
                        Some((t, j)) => Some((seq![c] + t, j)),
                        None => None,
                    },
                    None => None,
                }
            }
        } else {
            None
        }
    } else {
        match parse_string_body(s, i + 1) {
            Some((t, j)) => Some((seq![s[i]] + t, j)),
            None => None,
        }
    }
}

/// Parse a JSON string literal at index `i`: content and index after it.
pub open spec fn parse_quoted(s: Seq<char>, i: int) -> Option<(Seq<char>, int)> {
    if 0 <= i && i < s.len() && s[i] == '"' {
        parse_string_body(s, i + 1)
    } else {
        None
    }
}

/// The first index at or after `i` that does not hold a decimal digit.
pub open spec fn digits_end(s: Seq<char>, i: int) -> int
    decreases s.len() - i,
{
    if 0 <= i && i < s.len() && is_digit_char(s[i]) {
        digits_end(s, i + 1)
    } else {
        i
    }
}

/// Parse a non-empty digit run as a `u32`; overlong values are refused.
pub open spec fn parse_u32(s: Seq<char>, i: int) -> Option<(u32, int)> {
    let e = digits_end(s, i);
    if e == i {
        None
    } else {
        let v = dec_value(s.subrange(i, e));
        if v <= u32::MAX {
            Some((v as u32, e))
        } else {
            None
        }
    }
}

/// Whatever a successful string-body parse returns lies strictly after `i`
/// and within `s`.
pub proof fn lemma_parse_string_body_bounds(s: Seq<char>, i: int)
    requires
        0 <= i,
    ensures
        parse_string_body(s, i) matches Some(t_j) ==> i < t_j.1 <= s.len(),
    decreases s.len() - i,
{
    if 0 <= i && i < s.len() {
        if s[i] == '"' {
        } else if s[i] == '\\' {
            if i + 2 <= s.len() {
                if s[i + 1] == 'u' {
                    if i + 6 <= s.len() {
                        lemma_parse_string_body_bounds(s, i + 6);
                    }
                } else {
                    lemma_parse_string_body_bounds(s, i + 2);
                }
            }
        } else {
            lemma_parse_string_body_bounds(s, i + 1);
        }
    }
}

/// A successful digit scan stays within `s` and after `i`.
pub proof fn lemma_digits_end_bounds(s: Seq<char>, i: int)
    requires
        0 <= i <= s.len(),
    ensures
        i <= digits_end(s, i) <= s.len(),
    decreases s.len() - i,
{
    if i < s.len() && is_digit_char(s[i]) {
        lemma_digits_end_bounds(s, i + 1);
    }
}

/// Parse one pretty-printed record at index `i`.
#[verifier::opaque]
pub open spec fn parse_record(s: Seq<char>, i: int) -> Option<(RecordV, int)> {
    match parse_lit(s, i, "    {\n      \"id\": "@) {
        None => None,
        Some(i1) => match parse_quoted(s, i1) {
            None => None,
            Some((id, i2)) => match parse_lit(s, i2, ",\n      \"filename\": "@) {
                None => None,
                Some(i3) => match parse_quoted(s, i3) {
                    None => None,
                    Some((filename, i4)) => match parse_lit(s, i4, ",\n      \"name\": "@) {
                        None => None,
                        Some(i5) => match parse_quoted(s, i5) {
                            None => None,
                            Some((name, i6)) => match parse_lit(s, i6, ",\n      \"artist\": "@) {
                                None => None,
                                Some(i7) => match parse_quoted(s, i7) {
                                    None => None,
                                    Some((artist, i8)) => match parse_lit(
                                        s,
                                        i8,
                                        ",\n      \"width\": "@,
                                    ) {
                                        None => None,
                                        Some(i9) => match parse_u32(s, i9) {
                                            None => None,
                                            Some((width, i10)) => match parse_lit(
                                                s,
                                                i10,
                                                ",\n      \"height\": "@,
                                            ) {
                                                None => None,
                                                Some(i11) => match parse_u32(s, i11) {
                                                    None => None,
                                                    Some((height, i12)) => match parse_lit(
                                                        s,
                                                        i12,
                                                        "\n    }"@,
                                                    ) {
                                                        None => None,
                                                        Some(i13) => Some(
                                                            (
                                                                RecordV {
                                                                    id,
                                                                    filename,
                                                                    name,
                                                                    artist,
                                                                    width,
                                                                    height,
                                                                },
                                                                i13,
                                                            ),
                                                        ),
                                                    },
                                                },
                                            },
                                        },
                                    },
                                },
                            },
                        },
                    },
                },
            },
        },
    }
}

/// A successful record parse lands strictly after `i` and within `s`.
pub proof fn lemma_parse_record_bounds(s: Seq<char>, i: int)
    requires
        0 <= i,
    ensures
        parse_record(s, i) matches Some(r_j) ==> i < r_j.1 <= s.len(),
{
    reveal(parse_record);
    reveal_strlit("    {\n      \"id\": ");
    if parse_record(s, i) is Some {
        let i1 = parse_lit(s, i, "    {\n      \"id\": "@)->0;
        lemma_parse_string_body_bounds(s, i1 + 1);
        let i2 = (parse_quoted(s, i1)->0).1;
        let i3 = parse_lit(s, i2, ",\n      \"filename\": "@)->0;
        lemma_parse_string_body_bounds(s, i3 + 1);
        let i4 = (parse_quoted(s, i3)->0).1;
        let i5 = parse_lit(s, i4, ",\n      \"name\": "@)->0;
        lemma_parse_string_body_bounds(s, i5 + 1);
        let i6 = (parse_quoted(s, i5)->0).1;
        let i7 = parse_lit(s, i6, ",\n      \"artist\": "@)->0;
        lemma_parse_string_body_bounds(s, i7 + 1);
        let i8 = (parse_quoted(s, i7)->0).1;
        let i9 = parse_lit(s, i8, ",\n      \"width\": "@)->0;
        lemma_digits_end_bounds(s, i9);
        let i10 = (parse_u32(s, i9)->0).1;
        let i11 = parse_lit(s, i10, ",\n      \"height\": "@)->0;
        lemma_digits_end_bounds(s, i11);
        let i12 = (parse_u32(s, i11)->0).1;
    }
}

/// Parse one or more comma-separated records.
pub open spec fn parse_record_list(s: Seq<char>, i: int) -> Option<(Seq<RecordV>, int)>
    decreases s.len() - i,
    when 0 <= i
    via parse_record_list_dec
{
    match parse_record(s, i) {
        None => None,
        Some((r, j)) => match parse_lit(s, j, ",\n"@) {
            None => Some((seq![r], j)),
            Some(j2) => match parse_record_list(s, j2) {
                None => None,
                Some((rs, k)) => Some((seq![r] + rs, k)),
            },
        },
    }
}

#[via_fn]
proof fn parse_record_list_dec(s: Seq<char>, i: int) {
    lemma_parse_record_bounds(s, i);
}

/// Parse the `paintings` array at index `i`.
pub open spec fn parse_paintings(s: Seq<char>, i: int) -> Option<(Seq<RecordV>, int)> {
    match parse_lit(s, i, "[]"@) {
        Some(j) => Some((Seq::empty(), j)),
        None => match parse_lit(s, i, "[\n"@) {
            None => None,
            Some(j) => match parse_record_list(s, j) {
                None => None,
                Some((rs, k)) => match parse_lit(s, k, "\n  ]"@) {
                    None => None,
                    Some(l) => Some((rs, l)),
                },
            },
        },
    }
}

/// Parse a whole manifest document; the entire text must be consumed.
#[verifier::opaque]
pub open spec fn parse_manifest_spec(s: Seq<char>) -> Option<ManifestV> {
    match parse_lit(s, 0, "{\n  \"name\": "@) {
        None => None,
        Some(i1) => match parse_quoted(s, i1) {
            None => None,
            Some((name, i2)) => match parse_lit(s, i2, ",\n  \"$schema\": "@) {
                None => None,
                Some(i3) => match parse_quoted(s, i3) {
                    None => None,
                    Some((schema, i4)) => match parse_lit(s, i4, ",\n  \"version\": "@) {
                        None => None,
                        Some(i5) => match parse_quoted(s, i5) {
                            None => None,
                            Some((version, i6)) => match parse_lit(s, i6, ",\n  \"id\": "@) {
                                None => None,
                                Some(i7) => match parse_quoted(s, i7) {
                                    None => None,
                                    Some((id, i8)) => match parse_lit(
                                        s,
                                        i8,
                                        ",\n  \"description\": "@,
                                    ) {
                                        None => None,
                                        Some(i9) => match parse_quoted(s, i9) {
                                            None => None,
                                            Some((description, i10)) => match parse_lit(
                                                s,
                                                i10,
                                                ",\n  \"paintings\": "@,
                                            ) {
                                                None => None,
                                                Some(i11) => match parse_paintings(s, i11) {
                                                    None => None,
                                                    Some((records, i12)) => match parse_lit(
                                                        s,
                                                        i12,
                                                        "\n}"@,
                                                    ) {
                                                        None => None,
                                                        Some(i13) => if i13 == s.len() {
                                                            Some(
                                                                ManifestV {
                                                                    name,
                                                                    schema,
                                                                    version,
                                                                    id,
                                                                    description,
                                                                    records,
                                                                },
                                                            )
                                                        } else {
                                                            None
                                                        },
                                                    },
                                                },
                                            },
                                        },
                                    },
                                },
                            },
                        },
                    },
                },
            },
        },
    }
}

/// A literal placed exactly at the parse position is recognized.
pub proof fn lemma_parse_lit_concat(p: Seq<char>, lit: Seq<char>, r: Seq<char>)
    ensures
        parse_lit(p + lit + r, p.len() as int, lit) == Some(p.len() as int + lit.len()),
{
    let s = p + lit + r;
    assert(s.subrange(p.len() as int, p.len() + lit.len() as int) =~= lit);
}

/// Escaping can be unfolded from the front as well as from the back.
pub proof fn lemma_escape_str_cons(c: Seq<char>)
    requires
        c.len() >= 1,
    ensures
        escape_str(c) == escape_char(c[0]) + escape_str(c.skip(1)),
    decreases c.len(),
{
    if c.len() == 1 {
        assert(c.drop_last() =~= Seq::<char>::empty());
        assert(c.skip(1) =~= Seq::<char>::empty());
        assert(escape_str(c) =~= escape_char(c[0]) + escape_str(c.skip(1)));
    } else {
        lemma_escape_str_cons(c.drop_last());
        assert(c.drop_last()[0] == c[0]);
        assert(c.skip(1).drop_last() =~= c.drop_last().skip(1));
        assert(c.skip(1).last() == c.last());
        assert(escape_str(c.skip(1)) == escape_str(c.drop_last().skip(1)) + escape_char(c.last()));
        assert(escape_str(c) =~= escape_char(c[0]) + escape_str(c.skip(1)));
    }
}

/// Hex digits written by the escaper read back as their value.
pub proof fn lemma_hex_char_val(d: int)
    requires
        0 <= d < 16,
    ensures
        is_hex_char(hex_char(d)),
        hex_val(hex_char(d)) == d,
{
}

/// Unescaping inverts escaping: parsing the escaped body followed by the
/// closing quote yields the original content and stops after the quote.
#[verifier::rlimit(50)]
pub proof fn lemma_parse_string_body_rt(p: Seq<char>, c: Seq<char>, r: Seq<char>)
    ensures
        parse_string_body(p + escape_str(c) + seq!['"'] + r, p.len() as int) == Some(
            (c, p.len() as int + escape_str(c).len() + 1),
        ),
    decreases c.len(),
{
    let s = p + escape_str(c) + seq!['"'] + r;
    let i = p.len() as int;
    if c.len() == 0 {
        assert(escape_str(c).len() == 0);
        assert(s[i] == '"');
        assert(parse_string_body(s, i) == Some((Seq::<char>::empty(), i + 1)));
        assert(c =~= Seq::<char>::empty());
    } else {
        lemma_escape_str_cons(c);
        let c0 = c[0];
        let ec = escape_char(c0);
        let tail = c.skip(1);
        assert(s =~= (p + ec) + escape_str(tail) + seq!['"'] + r);
        lemma_parse_string_body_rt(p + ec, tail, r);
        let inner = parse_string_body(s, (p + ec).len() as int);
        assert(inner == Some((tail, (p + ec).len() as int + escape_str(tail).len() + 1)));
        assert(seq![c0] + tail =~= c);
        if c0 == '"' {
            assert(s[i] == '\\' && s[i + 1] == '"');
            assert((p + ec).len() == i + 2);
        } else if c0 == '\\' {
            assert(s[i] == '\\' && s[i + 1] == '\\');
            assert((p + ec).len() == i + 2);
        } else if c0 == '\u{8}' {
            assert(s[i] == '\\' && s[i + 1] == 'b');
            assert((p + ec).len() == i + 2);
        } else if c0 == '\u{c}' {
            assert(s[i] == '\\' && s[i + 1] == 'f');
            assert((p + ec).len() == i + 2);
        } else if c0 == '\n' {
            assert(s[i] == '\\' && s[i + 1] == 'n');
            assert((p + ec).len() == i + 2);
        } else if c0 == '\r' {
            assert(s[i] == '\\' && s[i + 1] == 'r');
            assert((p + ec).len() == i + 2);
        } else if c0 == '\t' {
            assert(s[i] == '\\' && s[i + 1] == 't');
            assert((p + ec).len() == i + 2);
        } else if (c0 as u32) < 0x20 {
            let u = (c0 as u32) as int;
            lemma_hex_char_val(u / 16);
            lemma_hex_char_val(u % 16);
            assert(s[i] == '\\' && s[i + 1] == 'u' && s[i + 2] == '0' && s[i + 3] == '0');
            assert(s[i + 4] == hex_char(u / 16) && s[i + 5] == hex_char(u % 16));
            assert((p + ec).len() == i + 6);
            vstd::arithmetic::div_mod::lemma_fundamental_div_mod(u, 16);
            assert(hex_val(s[i + 4]) * 16 + hex_val(s[i + 5]) == u);
            vstd::utf8::char_u32_cast(c0, c0 as u32);
            assert(((hex_val(s[i + 4]) * 16 + hex_val(s[i + 5])) as u32) as char == c0);
        } else {
            assert(ec =~= seq![c0]);
            assert(s[i] == c0);
            assert((p + ec).len() == i + 1);
        }
    }
}

/// Every character of a decimal rendering is a digit.
pub proof fn lemma_dec_digits_are_digits(n: int)
    requires
        n >= 0,
    ensures
        dec_digits(n).len() >= 1,
        forall|k: int| 0 <= k < dec_digits(n).len() ==> is_digit_char(#[trigger] dec_digits(n)[k]),
    decreases n,
{
    if n < 10 {
    } else {
        lemma_dec_digits_are_digits(n / 10);
        assert forall|k: int| 0 <= k < dec_digits(n).len() implies is_digit_char(
            #[trigger] dec_digits(n)[k],
        ) by {
            if k < dec_digits(n / 10).len() {
                assert(dec_digits(n)[k] == dec_digits(n / 10)[k]);
            } else {
                assert(dec_digits(n)[k] == digit_char(n % 10));
            }
        }
    }
}

/// Reading back a decimal rendering gives the number itself.
pub proof fn lemma_dec_value_of_digits(n: int)
    requires
        n >= 0,
    ensures
        dec_value(dec_digits(n)) == n,
    decreases n,
{
    if n < 10 {
        assert(dec_digits(n) == seq![digit_char(n)]);
        assert(seq![digit_char(n)].drop_last() =~= Seq::<char>::empty());
        assert(seq![digit_char(n)].last() == digit_char(n));
        assert(dec_value(dec_digits(n)) == dec_value(Seq::<char>::empty()) * 10 + digit_val(
            digit_char(n),
        ));
    } else {
        lemma_dec_value_of_digits(n / 10);
        assert(dec_digits(n).drop_last() =~= dec_digits(n / 10));
        assert(dec_digits(n).last() == digit_char(n % 10));
        vstd::arithmetic::div_mod::lemma_fundamental_div_mod(n, 10);
        assert(digit_val(digit_char(n % 10)) == n % 10);
    }
}

/// A digit scan over an all-digit block followed by a non-digit stops exactly
/// at the block's end.
pub proof fn lemma_digits_end_concat(p: Seq<char>, d: Seq<char>, r: Seq<char>)
    requires
        forall|k: int| 0 <= k < d.len() ==> is_digit_char(#[trigger] d[k]),
        r.len() == 0 || !is_digit_char(r[0]),
    ensures
        digits_end(p + d + r, p.len() as int) == p.len() as int + d.len(),
    decreases d.len(),
{
    let s = p + d + r;
    let i = p.len() as int;
    if d.len() == 0 {
        if i < s.len() {
            assert(s[i] == r[0]);
        }
    } else {
        assert(s[i] == d[0]);
        assert(s =~= (p + seq![d[0]]) + d.skip(1) + r);
        assert forall|k: int| 0 <= k < d.skip(1).len() implies is_digit_char(
            #[trigger] d.skip(1)[k],
        ) by {
            assert(d.skip(1)[k] == d[k + 1]);
        }
        lemma_digits_end_concat(p + seq![d[0]], d.skip(1), r);
    }
}

/// Parsing a number written by the renderer yields the number back.
pub proof fn lemma_parse_u32_rt(p: Seq<char>, n: u32, r: Seq<char>)
    requires
        r.len() == 0 || !is_digit_char(r[0]),
    ensures
        parse_u32(p + dec_digits(n as int) + r, p.len() as int) == Some(
            (n, p.len() as int + dec_digits(n as int).len()),
        ),
{
    let d = dec_digits(n as int);
    let s = p + d + r;
    let i = p.len() as int;
    lemma_dec_digits_are_digits(n as int);
    lemma_digits_end_concat(p, d, r);
    assert(s.subrange(i, i + d.len()) =~= d);
    lemma_dec_value_of_digits(n as int);
}

/// A quoted string placed exactly at the parse position reads back as its
/// content.
pub proof fn lemma_parse_quoted_concat(p: Seq<char>, c: Seq<char>, r: Seq<char>)
    ensures
        parse_quoted(p + quoted(c) + r, p.len() as int) == Some(
            (c, p.len() as int + quoted(c).len()),
        ),
{
    let s = p + quoted(c) + r;
    let i = p.len() as int;
    assert(s =~= (p + seq!['"']) + escape_str(c) + seq!['"'] + r);
    assert(s[i] == '"');
    lemma_parse_string_body_rt(p + seq!['"'], c, r);
}

/// Id step of the record round trip.
#[verifier::rlimit(100)]
proof fn lemma_parse_record_rt_a1(p: Seq<char>, rec: RecordV, r: Seq<char>)
    ensures
        ({
            let s = p + record_json(rec) + r;
            let l1 = "    {\n      \"id\": "@;
            let p1 = p + l1;
            let p2 = p1 + quoted(rec.id);
            &&& parse_lit(s, p.len() as int, l1) == Some(p1.len() as int)
            &&& parse_quoted(s, p1.len() as int) == Some((rec.id, p2.len() as int))
        }),
{
    let s = p + record_json(rec) + r;
    let l1 = "    {\n      \"id\": "@;
    let l2 = ",\n      \"filename\": "@;
    let l3 = ",\n      \"name\": "@;
    let l4 = ",\n      \"artist\": "@;
    let l5 = ",\n      \"width\": "@;
    let l6 = ",\n      \"height\": "@;
    let l7 = "\n    }"@;
    let qid = quoted(rec.id);
    let qfn = quoted(rec.filename);
    let qnm = quoted(rec.name);
    let qar = quoted(rec.artist);
    let dw = dec_digits(rec.width as int);
    let dh = dec_digits(rec.height as int);
    let p1 = p + l1;

    assert(parse_lit(s, p.len() as int, l1) == Some(p1.len() as int)) by {
        let rest = qid + l2 + qfn + l3 + qnm + l4 + qar + l5 + dw + l6 + dh + l7 + r;
        assert(s =~= p + l1 + rest);
        lemma_parse_lit_concat(p, l1, rest);
    }
    assert(parse_quoted(s, p1.len() as int) == Some((rec.id, (p1 + qid).len() as int))) by {
        let rest = l2 + qfn + l3 + qnm + l4 + qar + l5 + dw + l6 + dh + l7 + r;
        assert(s =~= p1 + qid + rest);
        lemma_parse_quoted_concat(p1, rec.id, rest);
    }
}

/// Filename step of the record round trip.
#[verifier::rlimit(100)]
proof fn lemma_parse_record_rt_a2(p: Seq<char>, rec: RecordV, r: Seq<char>)
    ensures
        ({
            let s = p + record_json(rec) + r;
            let l1 = "    {\n      \"id\": "@;
            let l2 = ",\n      \"filename\": "@;
            let p2 = p + l1 + quoted(rec.id);
            let p3 = p2 + l2;
            let p4 = p3 + quoted(rec.filename);
            &&& parse_lit(s, p2.len() as int, l2) == Some(p3.len() as int)
            &&& parse_quoted(s, p3.len() as int) == Some((rec.filename, p4.len() as int))
        }),
{
    let s = p + record_json(rec) + r;
    let l1 = "    {\n      \"id\": "@;
    let l2 = ",\n      \"filename\": "@;
    let l3 = ",\n      \"name\": "@;
    let l4 = ",\n      \"artist\": "@;
    let l5 = ",\n      \"width\": "@;
    let l6 = ",\n      \"height\": "@;
    let l7 = "\n    }"@;
    let qfn = quoted(rec.filename);
    let qnm = quoted(rec.name);
    let qar = quoted(rec.artist);
    let dw = dec_digits(rec.width as int);
    let dh = dec_digits(rec.height as int);
    let p2 = p + l1 + quoted(rec.id);
    let p3 = p2 + l2;

    assert(parse_lit(s, p2.len() as int, l2) == Some(p3.len() as int)) by {
        let rest = qfn + l3 + qnm + l4 + qar + l5 + dw + l6 + dh + l7 + r;
        assert(s =~= p2 + l2 + rest);
        lemma_parse_lit_concat(p2, l2, rest);
    }
    assert(parse_quoted(s, p3.len() as int) == Some((rec.filename, (p3 + qfn).len() as int))) by {
        let rest = l3 + qnm + l4 + qar + l5 + dw + l6 + dh + l7 + r;
        assert(s =~= p3 + qfn + rest);
        lemma_parse_quoted_concat(p3, rec.filename, rest);
    }
}

/// Name step of the record round trip.
#[verifier::rlimit(100)]
proof fn lemma_parse_record_rt_b1(p: Seq<char>, rec: RecordV, r: Seq<char>)
    ensures
        ({
            let s = p + record_json(rec) + r;
            let l1 = "    {\n      \"id\": "@;
            let l2 = ",\n      \"filename\": "@;
            let l3 = ",\n      \"name\": "@;
            let p4 = p + l1 + quoted(rec.id) + l2 + quoted(rec.filename);
            let p5 = p4 + l3;
            let p6 = p5 + quoted(rec.name);
            &&& parse_lit(s, p4.len() as int, l3) == Some(p5.len() as int)
            &&& parse_quoted(s, p5.len() as int) == Some((rec.name, p6.len() as int))
        }),
{
    let s = p + record_json(rec) + r;
    let l1 = "    {\n      \"id\": "@;
    let l2 = ",\n      \"filename\": "@;
    let l3 = ",\n      \"name\": "@;
    let l4 = ",\n      \"artist\": "@;
    let l5 = ",\n      \"width\": "@;
    let l6 = ",\n      \"height\": "@;
    let l7 = "\n    }"@;
    let qnm = quoted(rec.name);
    let qar = quoted(rec.artist);
    let dw = dec_digits(rec.width as int);
    let dh = dec_digits(rec.height as int);
    let p4 = p + l1 + quoted(rec.id) + l2 + quoted(rec.filename);
    let p5 = p4 + l3;

    assert(parse_lit(s, p4.len() as int, l3) == Some(p5.len() as int)) by {
        let rest = qnm + l4 + qar + l5 + dw + l6 + dh + l7 + r;
        assert(s =~= p4 + l3 + rest);
        lemma_parse_lit_concat(p4, l3, rest);
    }
    assert(parse_quoted(s, p5.len() as int) == Some((rec.name, (p5 + qnm).len() as int))) by {
        let rest = l4 + qar + l5 + dw + l6 + dh + l7 + r;
        assert(s =~= p5 + qnm + rest);
        lemma_parse_quoted_concat(p5, rec.name, rest);
    }
}

/// Artist step of the record round trip.
#[verifier::rlimit(100)]
proof fn lemma_parse_record_rt_b2(p: Seq<char>, rec: RecordV, r: Seq<char>)
    ensures
        ({
            let s = p + record_json(rec) + r;
            let l1 = "    {\n      \"id\": "@;
            let l2 = ",\n      \"filename\": "@;
            let l3 = ",\n      \"name\": "@;
            let l4 = ",\n      \"artist\": "@;
            let p6 = p + l1 + quoted(rec.id) + l2 + quoted(rec.filename) + l3 + quoted(rec.name);
            let p7 = p6 + l4;
            let p8 = p7 + quoted(rec.artist);
            &&& parse_lit(s, p6.len() as int, l4) == Some(p7.len() as int)
            &&& parse_quoted(s, p7.len() as int) == Some((rec.artist, p8.len() as int))
        }),
{
    let s = p + record_json(rec) + r;
    let l1 = "    {\n      \"id\": "@;
    let l2 = ",\n      \"filename\": "@;
    let l3 = ",\n      \"name\": "@;
    let l4 = ",\n      \"artist\": "@;
    let l5 = ",\n      \"width\": "@;
    let l6 = ",\n      \"height\": "@;
    let l7 = "\n    }"@;
    let qar = quoted(rec.artist);
    let dw = dec_digits(rec.width as int);
    let dh = dec_digits(rec.height as int);
    let p6 = p + l1 + quoted(rec.id) + l2 + quoted(rec.filename) + l3 + quoted(rec.name);
    let p7 = p6 + l4;

    assert(parse_lit(s, p6.len() as int, l4) == Some(p7.len() as int)) by {
        let rest = qar + l5 + dw + l6 + dh + l7 + r;
        assert(s =~= p6 + l4 + rest);
        lemma_parse_lit_concat(p6, l4, rest);
    }
    assert(parse_quoted(s, p7.len() as int) == Some((rec.artist, (p7 + qar).len() as int))) by {
        let rest = l5 + dw + l6 + dh + l7 + r;
        assert(s =~= p7 + qar + rest);
        lemma_parse_quoted_concat(p7, rec.artist, rest);
    }
}

/// Last third of the record round trip: the width and height numbers and the
/// closing brace.
#[verifier::rlimit(100)]
proof fn lemma_parse_record_rt_c(p: Seq<char>, rec: RecordV, r: Seq<char>)
    ensures
        ({
            let s = p + record_json(rec) + r;
            let l1 = "    {\n      \"id\": "@;
            let l2 = ",\n      \"filename\": "@;
            let l3 = ",\n      \"name\": "@;
            let l4 = ",\n      \"artist\": "@;
            let l5 = ",\n      \"width\": "@;
            let l6 = ",\n      \"height\": "@;
            let l7 = "\n    }"@;
            let p8 = p + l1 + quoted(rec.id) + l2 + quoted(rec.filename) + l3 + quoted(rec.name)
                + l4 + quoted(rec.artist);
            let p9 = p8 + l5;
            let p10 = p9 + dec_digits(rec.width as int);
            let p11 = p10 + l6;
            let p12 = p11 + dec_digits(rec.height as int);
            &&& parse_lit(s, p8.len() as int, l5) == Some(p9.len() as int)
            &&& parse_u32(s, p9.len() as int) == Some((rec.width, p10.len() as int))
            &&& parse_lit(s, p10.len() as int, l6) == Some(p11.len() as int)
            &&& parse_u32(s, p11.len() as int) == Some((rec.height, p12.len() as int))
            &&& parse_lit(s, p12.len() as int, l7) == Some(p12.len() as int + l7.len())
        }),
{
    let s = p + record_json(rec) + r;
    let l1 = "    {\n      \"id\": "@;
    let l2 = ",\n      \"filename\": "@;
    let l3 = ",\n      \"name\": "@;
    let l4 = ",\n      \"artist\": "@;
    let l5 = ",\n      \"width\": "@;
    let l6 = ",\n      \"height\": "@;
    let l7 = "\n    }"@;
    let dw = dec_digits(rec.width as int);
    let dh = dec_digits(rec.height as int);
    let p8 = p + l1 + quoted(rec.id) + l2 + quoted(rec.filename) + l3 + quoted(rec.name) + l4
        + quoted(rec.artist);
    let p9 = p8 + l5;
    let p10 = p9 + dw;
    let p11 = p10 + l6;
    let p12 = p11 + dh;

    assert(parse_lit(s, p8.len() as int, l5) == Some(p9.len() as int)) by {
        let rest = dw + l6 + dh + l7 + r;
        assert(s =~= p8 + l5 + rest);
        lemma_parse_lit_concat(p8, l5, rest);
    }
    assert(parse_u32(s, p9.len() as int) == Some((rec.width, p10.len() as int))) by {
        let rest = l6 + dh + l7 + r;
        assert(s =~= p9 + dw + rest);
        reveal_strlit(",\n      \"height\": ");
        assert(rest[0] == l6[0]);
        assert(!is_digit_char(rest[0]));
        lemma_parse_u32_rt(p9, rec.width, rest);
    }
    assert(parse_lit(s, p10.len() as int, l6) == Some(p11.len() as int)) by {
        let rest = dh + l7 + r;
        assert(s =~= p10 + l6 + rest);
        lemma_parse_lit_concat(p10, l6, rest);
    }
    assert(parse_u32(s, p11.len() as int) == Some((rec.height, p12.len() as int))) by {
        let rest = l7 + r;
        assert(s =~= p11 + dh + rest);
        reveal_strlit("\n    }");
        assert(rest[0] == l7[0]);
        assert(!is_digit_char(rest[0]));
        lemma_parse_u32_rt(p11, rec.height, rest);
    }
    assert(parse_lit(s, p12.len() as int, l7) == Some(p12.len() as int + l7.len())) by {
        assert(s =~= p12 + l7 + r);
        lemma_parse_lit_concat(p12, l7, r);
    }
}

/// A record written by the printer reads back as itself, ending exactly at
/// the printed text's end.
#[verifier::rlimit(100)]
pub proof fn lemma_parse_record_rt(p: Seq<char>, rec: RecordV, r: Seq<char>)
    ensures
        parse_record(p + record_json(rec) + r, p.len() as int) == Some(
            (rec, p.len() as int + record_json(rec).len()),
        ),
{
    let s = p + record_json(rec) + r;
    lemma_parse_record_rt_a1(p, rec, r);
    lemma_parse_record_rt_a2(p, rec, r);
    lemma_parse_record_rt_b1(p, rec, r);
    lemma_parse_record_rt_b2(p, rec, r);
    lemma_parse_record_rt_c(p, rec, r);
    let got = parse_record(s, p.len() as int);
    assert(got == Some((rec, p.len() as int + record_json(rec).len()))) by {
        reveal(parse_record);
        assert(got is Some);
        assert((got->0).0 =~~= rec);
        assert((got->0).1 == p.len() as int + record_json(rec).len());
    }
}

/// The printed record list unfolds from the front.
#[verifier::rlimit(100)]
proof fn lemma_records_json_cons(rs: Seq<RecordV>)
    requires
        rs.len() >= 2,
    ensures
        records_json(rs) == record_json(rs[0]) + ",\n"@ + records_json(rs.skip(1)),
    decreases rs.len(),
{
    let a = record_json(rs[0]);
    let c = ",\n"@;
    let l = record_json(rs.last());
    assert(rs.drop_last()[0] == rs[0]);
    assert(rs.skip(1).last() == rs.last());
    if rs.len() == 2 {
        assert(rs.drop_last().len() == 1);
        assert(rs.skip(1).len() == 1);
        assert(rs.skip(1)[0] == rs[1]);
        assert(rs.last() == rs[1]);
        assert(records_json(rs.drop_last()) == a);
        assert(records_json(rs.skip(1)) == record_json(rs.skip(1)[0]));
        assert(records_json(rs) == records_json(rs.drop_last()) + c + l);
    } else {
        lemma_records_json_cons(rs.drop_last());
        let y = records_json(rs.drop_last().skip(1));
        assert(rs.skip(1).drop_last() =~= rs.drop_last().skip(1));
        assert(records_json(rs) == records_json(rs.drop_last()) + c + l);
        assert(records_json(rs.drop_last()) == a + c + y);
        assert(rs.skip(1).len() >= 2);
        assert(records_json(rs.skip(1)) == records_json(rs.skip(1).drop_last()) + c + record_json(
            rs.skip(1).last(),
        ));
        assert(records_json(rs.skip(1)) == y + c + l);
        assert(((a + c + y) + c) + l =~= (a + c) + ((y + c) + l));
        assert(records_json(rs) == a + c + records_json(rs.skip(1)));
    }
}

/// A printed record list reads back as itself, provided the text after it
/// does not begin with a comma.
#[verifier::rlimit(100)]
proof fn lemma_parse_record_list_rt(p: Seq<char>, rs: Seq<RecordV>, r: Seq<char>)
    requires
        rs.len() >= 1,
        r.len() >= 1,
        r[0] != ',',
    ensures
        parse_record_list(p + records_json(rs) + r, p.len() as int) == Some(
            (rs, p.len() as int + records_json(rs).len()),
        ),
    decreases rs.len(),
{
    let s = p + records_json(rs) + r;
    let i = p.len() as int;
    if rs.len() == 1 {
        let j = i + records_json(rs).len();
        assert(parse_record(s, i) == Some((rs[0], j))) by {
            assert(records_json(rs) == record_json(rs[0]));
            lemma_parse_record_rt(p, rs[0], r);
        }
        assert(parse_lit(s, j, ",\n"@) is None) by {
            reveal_strlit(",\n");
            if j + 2 <= s.len() {
                assert(s[j] == r[0]);
                assert(s.subrange(j, j + 2)[0] == s[j]);
            }
        }
        assert(seq![rs[0]] =~= rs);
    } else {
        lemma_records_json_cons(rs);
        reveal_strlit(",\n");
        let rj = record_json(rs[0]);
        let j = i + rj.len();
        let k = i + records_json(rs).len();
        assert(parse_record(s, i) == Some((rs[0], j))) by {
            assert(s =~= p + rj + (",\n"@ + records_json(rs.skip(1)) + r));
            lemma_parse_record_rt(p, rs[0], ",\n"@ + records_json(rs.skip(1)) + r);
        }
        assert(parse_lit(s, j, ",\n"@) == Some(j + 2)) by {
            assert(s =~= (p + rj) + ",\n"@ + (records_json(rs.skip(1)) + r));
            lemma_parse_lit_concat(p + rj, ",\n"@, records_json(rs.skip(1)) + r);
        }
        assert(parse_record_list(s, j + 2) == Some((rs.skip(1), k))) by {
            assert(s =~= (p + rj + ",\n"@) + records_json(rs.skip(1)) + r);
            lemma_parse_record_list_rt(p + rj + ",\n"@, rs.skip(1), r);
        }
        assert(seq![rs[0]] + rs.skip(1) =~= rs);
    }
}

/// A printed paintings array reads back as itself, provided the text after
/// it begins with a newline (never a bracket or comma).
#[verifier::rlimit(100)]
proof fn lemma_parse_paintings_rt(p: Seq<char>, rs: Seq<RecordV>, r: Seq<char>)
    requires
        r.len() >= 1,
        r[0] == '\n',
    ensures
        parse_paintings(p + paintings_json(rs) + r, p.len() as int) == Some(
            (rs, p.len() as int + paintings_json(rs).len()),
        ),
{
    let s = p + paintings_json(rs) + r;
    let i = p.len() as int;
    if rs.len() == 0 {
        assert(paintings_json(rs) == "[]"@);
        lemma_parse_lit_concat(p, "[]"@, r);
    } else {
        let mid = records_json(rs);
        let j = i + 2;
        let k = j + mid.len();
        assert(parse_lit(s, i, "[]"@) is None) by {
            reveal_strlit("[]");
            reveal_strlit("[\n");
            assert(s =~= p + "[\n"@ + (mid + "\n  ]"@ + r));
            if i + 2 <= s.len() {
                assert(s[i + 1] == '\n');
                assert(s.subrange(i, i + 2)[1] == s[i + 1]);
            }
        }
        assert(parse_lit(s, i, "[\n"@) == Some(j)) by {
            reveal_strlit("[\n");
            assert(s =~= p + "[\n"@ + (mid + "\n  ]"@ + r));
            lemma_parse_lit_concat(p, "[\n"@, mid + "\n  ]"@ + r);
        }
        assert(parse_record_list(s, j) == Some((rs, k))) by {
            reveal_strlit("[\n");
            reveal_strlit("\n  ]");
            assert(s =~= (p + "[\n"@) + mid + ("\n  ]"@ + r));
            assert(("\n  ]"@ + r)[0] == '\n');
            lemma_parse_record_list_rt(p + "[\n"@, rs, "\n  ]"@ + r);
        }
        assert(parse_lit(s, k, "\n  ]"@) == Some(i + paintings_json(rs).len())) by {
            reveal_strlit("[\n");
            reveal_strlit("\n  ]");
            assert(s =~= (p + "[\n"@ + mid) + "\n  ]"@ + r);
            lemma_parse_lit_concat(p + "[\n"@ + mid, "\n  ]"@, r);
        }
    }
}

/// First part of the document round trip: the name, schema and version
/// fields parse back as written.
#[verifier::rlimit(100)]
proof fn lemma_manifest_rt_a(m: ManifestV)
    ensures
        ({
            let s = json_of(m);
            let p1 = "{\n  \"name\": "@;
            let p2 = p1 + quoted(m.name) + ",\n  \"$schema\": "@;
            let p3 = p2 + quoted(m.schema) + ",\n  \"version\": "@;
            &&& parse_lit(s, 0, "{\n  \"name\": "@) == Some(p1.len() as int)
            &&& parse_quoted(s, p1.len() as int) == Some(
                (m.name, p1.len() as int + quoted(m.name).len()),
            )
            &&& parse_lit(s, p1.len() as int + quoted(m.name).len(), ",\n  \"$schema\": "@)
                == Some(p2.len() as int)
            &&& parse_quoted(s, p2.len() as int) == Some(
                (m.schema, p2.len() as int + quoted(m.schema).len()),
            )
            &&& parse_lit(s, p2.len() as int + quoted(m.schema).len(), ",\n  \"version\": "@)
                == Some(p3.len() as int)
            &&& parse_quoted(s, p3.len() as int) == Some(
                (m.version, p3.len() as int + quoted(m.version).len()),
            )
        }),
{
    let s = json_of(m);
    let l0 = "{\n  \"name\": "@;
    let ls = ",\n  \"$schema\": "@;
    let lv = ",\n  \"version\": "@;
    let li = ",\n  \"id\": "@;
    let ld = ",\n  \"description\": "@;
    let lp = ",\n  \"paintings\": "@;
    let le = "\n}"@;
    let qn = quoted(m.name);
    let qs = quoted(m.schema);
    let qv = quoted(m.version);
    let qi = quoted(m.id);
    let qd = quoted(m.description);
    let pj = paintings_json(m.records);
    let p1 = l0;
    let p2 = p1 + qn + ls;
    let p3 = p2 + qs + lv;

    assert(parse_lit(s, 0, l0) == Some(p1.len() as int)) by {
        let rest = qn + ls + qs + lv + qv + li + qi + ld + qd + lp + pj + le;
        assert(s =~= Seq::<char>::empty() + l0 + rest);
        lemma_parse_lit_concat(Seq::<char>::empty(), l0, rest);
    }
    assert(parse_quoted(s, p1.len() as int) == Some((m.name, p1.len() as int + qn.len()))) by {
        let rest = ls + qs + lv + qv + li + qi + ld + qd + lp + pj + le;
        assert(s =~= p1 + qn + rest);
        lemma_parse_quoted_concat(p1, m.name, rest);
    }
    assert(parse_lit(s, p1.len() as int + qn.len(), ls) == Some(p2.len() as int)) by {
        let rest = qs + lv + qv + li + qi + ld + qd + lp + pj + le;
        assert(s =~= (p1 + qn) + ls + rest);
        lemma_parse_lit_concat(p1 + qn, ls, rest);
    }
    assert(parse_quoted(s, p2.len() as int) == Some((m.schema, p2.len() as int + qs.len()))) by {
        let rest = lv + qv + li + qi + ld + qd + lp + pj + le;
        assert(s =~= p2 + qs + rest);
        lemma_parse_quoted_concat(p2, m.schema, rest);
    }
    assert(parse_lit(s, p2.len() as int + qs.len(), lv) == Some(p3.len() as int)) by {
        let rest = qv + li + qi + ld + qd + lp + pj + le;
        assert(s =~= (p2 + qs) + lv + rest);
        lemma_parse_lit_concat(p2 + qs, lv, rest);
    }
    assert(parse_quoted(s, p3.len() as int) == Some((m.version, p3.len() as int + qv.len()))) by {
        let rest = li + qi + ld + qd + lp + pj + le;
        assert(s =~= p3 + qv + rest);
        lemma_parse_quoted_concat(p3, m.version, rest);
    }
}

/// Second part of the document round trip: the id and description fields and
/// the paintings array with the closing brace.
#[verifier::rlimit(100)]
proof fn lemma_manifest_rt_b(m: ManifestV)
    ensures
        ({
            let s = json_of(m);
            let p3 = "{\n  \"name\": "@ + quoted(m.name) + ",\n  \"$schema\": "@ + quoted(m.schema)
                + ",\n  \"version\": "@;
            let p4 = p3 + quoted(m.version) + ",\n  \"id\": "@;
            let p5 = p4 + quoted(m.id) + ",\n  \"description\": "@;
            let p6 = p5 + quoted(m.description) + ",\n  \"paintings\": "@;
            let p7 = p6 + paintings_json(m.records);
            &&& parse_lit(s, p3.len() as int + quoted(m.version).len(), ",\n  \"id\": "@) == Some(
                p4.len() as int,
            )
            &&& parse_quoted(s, p4.len() as int) == Some(
                (m.id, p4.len() as int + quoted(m.id).len()),
            )
            &&& parse_lit(s, p4.len() as int + quoted(m.id).len(), ",\n  \"description\": "@)
                == Some(p5.len() as int)
            &&& parse_quoted(s, p5.len() as int) == Some(
                (m.description, p5.len() as int + quoted(m.description).len()),
            )
            &&& parse_lit(s, p5.len() as int + quoted(m.description).len(), ",\n  \"paintings\": "@)
                == Some(p6.len() as int)
            &&& parse_paintings(s, p6.len() as int) == Some((m.records, p7.len() as int))
            &&& parse_lit(s, p7.len() as int, "\n}"@) == Some(p7.len() as int + "\n}"@.len())
            &&& p7.len() + "\n}"@.len() == s.len()
        }),
{
    let s = json_of(m);
    let l0 = "{\n  \"name\": "@;
    let ls = ",\n  \"$schema\": "@;
    let lv = ",\n  \"version\": "@;
    let li = ",\n  \"id\": "@;
    let ld = ",\n  \"description\": "@;
    let lp = ",\n  \"paintings\": "@;
    let le = "\n}"@;
    let qn = quoted(m.name);
    let qs = quoted(m.schema);
    let qv = quoted(m.version);
    let qi = quoted(m.id);
    let qd = quoted(m.description);
    let pj = paintings_json(m.records);
    let p3 = l0 + qn + ls + qs + lv;
    let p4 = p3 + qv + li;
    let p5 = p4 + qi + ld;
    let p6 = p5 + qd + lp;
    let p7 = p6 + pj;

    assert(parse_lit(s, p3.len() as int + qv.len(), li) == Some(p4.len() as int)) by {
        let rest = qi + ld + qd + lp + pj + le;
        assert(s =~= (p3 + qv) + li + rest);
        lemma_parse_lit_concat(p3 + qv, li, rest);
    }
    assert(parse_quoted(s, p4.len() as int) == Some((m.id, p4.len() as int + qi.len()))) by {
        let rest = ld + qd + lp + pj + le;
        assert(s =~= p4 + qi + rest);
        lemma_parse_quoted_concat(p4, m.id, rest);
    }
    assert(parse_lit(s, p4.len() as int + qi.len(), ld) == Some(p5.len() as int)) by {
        let rest = qd + lp + pj + le;
        assert(s =~= (p4 + qi) + ld + rest);
        lemma_parse_lit_concat(p4 + qi, ld, rest);
    }
    assert(parse_quoted(s, p5.len() as int) == Some((m.description, p5.len() as int + qd.len())))
        by {
        let rest = lp + pj + le;
        assert(s =~= p5 + qd + rest);
        lemma_parse_quoted_concat(p5, m.description, rest);
    }
    assert(parse_lit(s, p5.len() as int + qd.len(), lp) == Some(p6.len() as int)) by {
        let rest = pj + le;
        assert(s =~= (p5 + qd) + lp + rest);
        lemma_parse_lit_concat(p5 + qd, lp, rest);
    }
    assert(parse_paintings(s, p6.len() as int) == Some((m.records, p7.len() as int))) by {
        reveal_strlit("\n}");
        assert(s =~= p6 + pj + le);
        assert(le[0] == '\n');
        lemma_parse_paintings_rt(p6, m.records, le);
    }
    assert(parse_lit(s, p7.len() as int, le) == Some(p7.len() as int + le.len())) by {
        assert(s =~= p7 + le + Seq::<char>::empty());
        lemma_parse_lit_concat(p7, le, Seq::<char>::empty());
        assert(s.len() == p7.len() + le.len());
    }
    assert(s.len() == p7.len() + le.len()) by {
        assert(s =~= p7 + le + Seq::<char>::empty());
    }
}

/// Round-trip law: a manifest serialized by the writer and parsed back
/// yields identical field values and record order, for every manifest value.
pub proof fn lemma_manifest_round_trip(m: ManifestV)
    ensures
        parse_manifest_spec(json_of(m)) == Some(m),
{
    let s = json_of(m);
    lemma_manifest_rt_a(m);
    lemma_manifest_rt_b(m);
    let got = parse_manifest_spec(s);
    assert(got == Some(m)) by {
        reveal(parse_manifest_spec);
        assert(got is Some);
        assert(got->0 =~~= m);
    }
}

/// A digit run's value only grows as more digits are taken.
proof fn lemma_dec_value_grows(d: Seq<char>, k: int)
    requires
        forall|q: int| 0 <= q < d.len() ==> is_digit_char(#[trigger] d[q]),
        0 <= k <= d.len(),
    ensures
        dec_value(d.take(k)) >= 0,
        dec_value(d) >= dec_value(d.take(k)),
    decreases d.len(),
{
    if d.len() == 0 {
        assert(d.take(k) =~= d);
    } else if k == d.len() {
        assert(d.take(k) =~= d);
        lemma_dec_value_grows(d.drop_last(), d.len() - 1);
        assert(d.drop_last().take(d.len() - 1) =~= d.drop_last());
    } else {
        assert forall|q: int| 0 <= q < d.drop_last().len() implies is_digit_char(
            #[trigger] d.drop_last()[q],
        ) by {
            assert(d.drop_last()[q] == d[q]);
        }
        lemma_dec_value_grows(d.drop_last(), k);
        assert(d.take(k) =~= d.drop_last().take(k));
        lemma_dec_value_grows(d.drop_last(), d.drop_last().len() as int);
        assert(d.drop_last().take(d.drop_last().len() as int) =~= d.drop_last());
    }
}

/// Whether `c` is a decimal digit, with its value.
fn digit_char_val(c: char) -> (r: Option<u32>)
    ensures
        match r {
            Some(v) => is_digit_char(c) && v == digit_val(c) && v < 10,
            None => !is_digit_char(c),
        },
{
    let u = c as u32;
    if 0x30 <= u && u <= 0x39 {
        Some(u - 0x30)
    } else {
        None
    }
}

/// Whether `c` is a lowercase hexadecimal digit, with its value.
fn hex_char_value(c: char) -> (r: Option<u32>)
    ensures
        match r {
            Some(v) => is_hex_char(c) && v == hex_val(c) && v < 16,
            None => !is_hex_char(c),
        },
{
    let u = c as u32;
    if 0x30 <= u && u <= 0x39 {
        Some(u - 0x30)
    } else if 0x61 <= u && u <= 0x66 {
        Some(u - 0x61 + 10)
    } else {
        None
    }
}

/// The character a short escape code stands for.
fn unescape_of(e: char) -> (r: Option<char>)
    ensures
        r == escape_code(e),
{
    if e == '"' {
        Some('"')
    } else if e == '\\' {
        Some('\\')
    } else if e == 'b' {
        Some('\u{8}')
    } else if e == 'f' {
        Some('\u{c}')
    } else if e == 'n' {
        Some('\n')
    } else if e == 'r' {
        Some('\r')
    } else if e == 't' {
        Some('\t')
    } else {
        None
    }
}

/// Expect the exact text `lit` at index `i` of `s`.
fn expect_lit(s: &str, i: usize, lit: &str) -> (r: Option<usize>)
    ensures
        match r {
            Some(j) => parse_lit(s@, i as int, lit@) == Some(j as int),
            None => parse_lit(s@, i as int, lit@) is None,
        },
{
    let n = s.unicode_len();
    let m = lit.unicode_len();
    if i > n || m > n - i {
        return None;
    }
    let mut k: usize = 0;
    while k < m
        invariant
            n == s@.len(),
            m == lit@.len(),
            i + m <= n,
            0 <= k <= m,
            forall|q: int| 0 <= q < k ==> s@[i + q] == lit@[q],
        decreases m - k,
    {
        if s.get_char(i + k) != lit.get_char(k) {
            proof {
                assert(s@[i + k as int] != lit@[k as int]);
                if s@.subrange(i as int, i + m as int) == lit@ {
                    assert(s@.subrange(i as int, i + m as int)[k as int] == lit@[k as int]);
                }
            }
            return None;
        }
        k = k + 1;
    }
    proof {
        assert(s@.subrange(i as int, i + m as int) =~= lit@);
    }
    Some(i + m)
}

/// Read a JSON string body starting just after the opening quote.
fn scan_string_body(s: &str, i: usize) -> (r: Option<(String, usize)>)
    ensures
        match r {
            Some(t_j) => parse_string_body(s@, i as int) == Some((t_j.0@, t_j.1 as int)),
            None => parse_string_body(s@, i as int) is None,
        },
    decreases s@.len() - i,
{
    let n = s.unicode_len();
    if i >= n {
        return None;
    }
    let c = s.get_char(i);
    if c == '"' {
        let out = String::new();
        proof {
            assert(out@ =~= Seq::<char>::empty());
        }
        return Some((out, i + 1));
    }
    if c == '\\' {
        if n - i < 2 {
            return None;
        }
        let e = s.get_char(i + 1);
        if e == 'u' {
            if n - i < 6 {
                return None;
            }
            if s.get_char(i + 2) != '0' || s.get_char(i + 3) != '0' {
                return None;
            }
            let v1 = match hex_char_value(s.get_char(i + 4)) {
                Some(v) => v,
                None => { return None },
            };
            let v2 = match hex_char_value(s.get_char(i + 5)) {
                Some(v) => v,
                None => { return None },
            };
            let code = v1 * 16 + v2;
            let ch = (code as u8) as char;
            proof {
                vstd::utf8::char_u32_cast(ch, ch as u32);
                assert(ch == ((hex_val(s@[i + 4]) * 16 + hex_val(s@[i + 5])) as u32) as char);
            }
            match scan_string_body(s, i + 6) {
                Some((tail, j)) => {
                    let mut out = String::new();
                    push_char(&mut out, ch);
                    out.append(tail.as_str());
                    proof {
                        assert(out@ =~= seq![ch] + tail@);
                    }
                    Some((out, j))
                },
                None => None,
            }
        } else {
            match unescape_of(e) {
                Some(ch) => match scan_string_body(s, i + 2) {
                    Some((tail, j)) => {
                        let mut out = String::new();
                        push_char(&mut out, ch);
                        out.append(tail.as_str());
                        proof {
                            assert(out@ =~= seq![ch] + tail@);
                        }
                        Some((out, j))
                    },
                    None => None,
                },
                None => None,
            }
        }
    } else {
        match scan_string_body(s, i + 1) {
            Some((tail, j)) => {
                let mut out = String::new();
                push_char(&mut out, c);
                out.append(tail.as_str());
                proof {
                    assert(out@ =~= seq![c] + tail@);
                }
                Some((out, j))
            },
            None => None,
        }
    }
}

/// Read a JSON string literal at index `i`.
fn scan_quoted(s: &str, i: usize) -> (r: Option<(String, usize)>)
    ensures
        match r {
            Some(t_j) => parse_quoted(s@, i as int) == Some((t_j.0@, t_j.1 as int)),
            None => parse_quoted(s@, i as int) is None,
        },
{
    let n = s.unicode_len();
    if i < n {
        let c = s.get_char(i);
        if c == '"' {
            scan_string_body(s, i + 1)
        } else {
            None
        }
    } else {
        None
    }
}

/// Read a decimal number at index `i` as a `u32`.
fn scan_u32(s: &str, i: usize) -> (r: Option<(u32, usize)>)
    ensures
        match r {
            Some(v_j) => parse_u32(s@, i as int) == Some((v_j.0, v_j.1 as int)),
            None => parse_u32(s@, i as int) is None,
        },
{
    let n = s.unicode_len();
    if i > n {
        return None;
    }
    let mut e: usize = i;
    while e < n && digit_char_val(s.get_char(e)).is_some()
        invariant
            n == s@.len(),
            i <= e <= n,
            forall|q: int| i <= q < e ==> is_digit_char(#[trigger] s@[q]),
            digits_end(s@, i as int) == digits_end(s@, e as int),
        decreases n - e,
    {
        e = e + 1;
    }
    proof {
        assert(digits_end(s@, e as int) == e as int);
    }
    if e == i {
        return None;
    }
    let ghost d = s@.subrange(i as int, e as int);
    proof {
        assert forall|q: int| 0 <= q < d.len() implies is_digit_char(#[trigger] d[q]) by {
            assert(d[q] == s@[i + q]);
        }
    }
    let mut v: u64 = 0;
    let mut k: usize = i;
    while k < e
        invariant
            n == s@.len(),
            i <= k <= e <= n,
            d == s@.subrange(i as int, e as int),
            digits_end(s@, i as int) == e as int,
            forall|q: int| 0 <= q < d.len() ==> is_digit_char(#[trigger] d[q]),
            v == dec_value(d.take(k - i)),
            v <= u32::MAX,
        decreases e - k,
    {
        let dv = match digit_char_val(s.get_char(k)) {
            Some(x) => x,
            None => {
                proof {
                    assert(s@[k as int] == d[k - i]);
                    assert(is_digit_char(s@[k as int]));
                }
                return None;
            },
        };
        let v2: u64 = v * 10 + dv as u64;
        proof {
            assert(d[k - i] == s@[k as int]);
            assert(d.take(k - i + 1).drop_last() =~= d.take(k - i));
            assert(d.take(k - i + 1).last() == d[k - i]);
            assert(dec_value(d.take(k - i + 1)) == dec_value(d.take(k - i)) * 10 + digit_val(
                d[k - i],
            ));
        }
        if v2 > u32::MAX as u64 {
            proof {
                lemma_dec_value_grows(d, k - i + 1);
                assert(dec_value(d) >= dec_value(d.take(k - i + 1)));
            }
            return None;
        }
        v = v2;
        k = k + 1;
    }
    proof {
        assert(d.take(e - i) =~= d);
    }
    Some((v as u32, e))
}

/// Read one pretty-printed record at index `i`.
#[verifier::rlimit(100)]
fn scan_record(s: &str, i: usize) -> (r: Option<(Painting, usize)>)
    ensures
        match r {
            Some(p_j) => parse_record(s@, i as int) == Some((p_j.0@, p_j.1 as int)),
            None => parse_record(s@, i as int) is None,
        },
{
    proof {
        reveal(parse_record);
    }
    let i1 = match expect_lit(s, i, "    {\n      \"id\": ") {
        Some(j) => j,
        None => { return None },
    };
    let (id, i2) = match scan_quoted(s, i1) {
        Some(t) => t,
        None => { return None },
    };
    let i3 = match expect_lit(s, i2, ",\n      \"filename\": ") {
        Some(j) => j,
        None => { return None },
    };
    let (filename, i4) = match scan_quoted(s, i3) {
        Some(t) => t,
        None => { return None },
    };
    let i5 = match expect_lit(s, i4, ",\n      \"name\": ") {
        Some(j) => j,
        None => { return None },
    };
    let (name, i6) = match scan_quoted(s, i5) {
        Some(t) => t,
        None => { return None },
    };
    let i7 = match expect_lit(s, i6, ",\n      \"artist\": ") {
        Some(j) => j,
        None => { return None },
    };
    let (artist, i8) = match scan_quoted(s, i7) {
        Some(t) => t,
        None => { return None },
    };
    let i9 = match expect_lit(s, i8, ",\n      \"width\": ") {
        Some(j) => j,
        None => { return None },
    };
    let (width, i10) = match scan_u32(s, i9) {
        Some(t) => t,
        None => { return None },
    };
    let i11 = match expect_lit(s, i10, ",\n      \"height\": ") {
        Some(j) => j,
        None => { return None },
    };
    let (height, i12) = match scan_u32(s, i11) {
        Some(t) => t,
        None => { return None },
    };
    let i13 = match expect_lit(s, i12, "\n    }") {
        Some(j) => j,
        None => { return None },
    };
    let painting = Painting { id, filename, name, artist, width, height };
    proof {
        assert((parse_record(s@, i as int)->0).0 =~~= painting@);
    }
    Some((painting, i13))
}

/// Read one or more comma-separated records at index `i`.
fn scan_record_list(s: &str, i: usize) -> (r: Option<(Vec<Painting>, usize)>)
    ensures
        match r {
            Some(v_j) => parse_record_list(s@, i as int) == Some((views_of(v_j.0@), v_j.1 as int)),
            None => parse_record_list(s@, i as int) is None,
        },
    decreases s@.len() - i,
{
    let (first, j) = match scan_record(s, i) {
        Some(t) => t,
        None => { return None },
    };
    proof {
        lemma_parse_record_bounds(s@, i as int);
    }
    match expect_lit(s, j, ",\n") {
        None => {
            let mut v: Vec<Painting> = Vec::new();
            v.push(first);
            proof {
                assert(views_of(v@) =~= seq![v@[0]@]);
            }
            Some((v, j))
        },
        Some(j2) => match scan_record_list(s, j2) {
            Some((mut rest, k)) => {
                let ghost before = rest@;
                rest.insert(0, first);
                proof {
                    assert(rest@ =~= seq![first] + before);
                    assert(views_of(rest@) =~= seq![first@] + views_of(before));
                }
                Some((rest, k))
            },
            None => None,
        },
    }
}

/// Read the `paintings` array at index `i`.
fn scan_paintings(s: &str, i: usize) -> (r: Option<(Vec<Painting>, usize)>)
    ensures
        match r {
            Some(v_j) => parse_paintings(s@, i as int) == Some((views_of(v_j.0@), v_j.1 as int)),
            None => parse_paintings(s@, i as int) is None,
        },
{
    match expect_lit(s, i, "[]") {
        Some(j) => {
            let v: Vec<Painting> = Vec::new();
            proof {
                assert(views_of(v@) =~= Seq::<RecordV>::empty());
            }
            Some((v, j))
        },
        None => {
            let j = match expect_lit(s, i, "[\n") {
                Some(j) => j,
                None => { return None },
            };
            let (recs, k) = match scan_record_list(s, j) {
                Some(t) => t,
                None => { return None },
            };
            let l = match expect_lit(s, k, "\n  ]") {
                Some(l) => l,
                None => { return None },
            };
            Some((recs, l))
        },
    }
}

/// Parse a whole manifest document back into a pack. Accepts exactly the
/// text form that `manifest_to_json` writes; the entire input must be
/// consumed.
pub fn parse_manifest(s: &str) -> (r: Option<PackList<Painting>>)
    ensures
        match r {
            Some(pack) => parse_manifest_spec(s@) == Some(pack_view(&pack)),
            None => parse_manifest_spec(s@) is None,
        },
{
    proof {
        reveal(parse_manifest_spec);
    }
    let i1 = match expect_lit(s, 0, "{\n  \"name\": ") {
        Some(j) => j,
        None => { return None },
    };
    let (name, i2) = match scan_quoted(s, i1) {
        Some(t) => t,
        None => { return None },
    };
    let i3 = match expect_lit(s, i2, ",\n  \"$schema\": ") {
        Some(j) => j,
        None => { return None },
    };
    let (schema, i4) = match scan_quoted(s, i3) {
        Some(t) => t,
        None => { return None },
    };
    let i5 = match expect_lit(s, i4, ",\n  \"version\": ") {
        Some(j) => j,
        None => { return None },
    };
    let (version, i6) = match scan_quoted(s, i5) {
        Some(t) => t,
        None => { return None },
    };
    let i7 = match expect_lit(s, i6, ",\n  \"id\": ") {
        Some(j) => j,
        None => { return None },
    };
    let (id, i8) = match scan_quoted(s, i7) {
        Some(t) => t,
        None => { return None },
    };
    let i9 = match expect_lit(s, i8, ",\n  \"description\": ") {
        Some(j) => j,
        None => { return None },
    };
    let (description, i10) = match scan_quoted(s, i9) {
        Some(t) => t,
        None => { return None },
    };
    let i11 = match expect_lit(s, i10, ",\n  \"paintings\": ") {
        Some(j) => j,
        None => { return None },
    };
    let (paintings, i12) = match scan_paintings(s, i11) {
        Some(t) => t,
        None => { return None },
    };
    let i13 = match expect_lit(s, i12, "\n}") {
        Some(j) => j,
        None => { return None },
    };
    if i13 != s.unicode_len() {
        return None;
    }
    let pack = PackList {
        pack_name: name,
        schema,
        version,
        id,
        description,
        paintings,
    };
    proof {
        assert(parse_manifest_spec(s@)->0 =~~= pack_view(&pack));
    }
    Some(pack)
}

} // verus!
