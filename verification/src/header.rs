//! The trusted boundary to the YAML parser, and the vocabulary of plain
//! header values.
//!
//! A definition document's header block is a YAML mapping of up to six known
//! string fields. Parsing arbitrary YAML is the outside parser's work; its
//! result on a given block is named by [`header_of`]. For the narrow class of
//! blocks this library itself writes — one `key: value` line per field, every
//! value a plain scalar in the sense of [`plain_value`] — what the parser
//! returns is pinned down exactly, which is what makes the encode/decode
//! round trip provable.

use vstd::prelude::*;

use crate::text;

verus! {

/// ASCII lowercase or uppercase letter.
pub open spec fn ascii_letter(c: char) -> bool {
    ('a' <= c && c <= 'z') || ('A' <= c && c <= 'Z')
}

/// ASCII digit.
pub open spec fn ascii_digit(c: char) -> bool {
    '0' <= c && c <= '9'
}

/// The characters a plain header value may hold: letters, digits, and a few
/// punctuation marks that YAML never reads as structure in a plain scalar.
pub open spec fn plain_char(c: char) -> bool {
    ascii_letter(c) || ascii_digit(c) || c == ' ' || c == '-' || c == '_' || c == '.' || c == ','
        || c == '(' || c == ')' || c == '/'
}

/// No three consecutive hyphens anywhere in `s`.
pub open spec fn no_triple_dash(s: Seq<char>) -> bool {
    forall|i: int|
        0 <= i && i + 3 <= s.len() ==> !(#[trigger] s[i] == '-' && s[i + 1] == '-' && s[i + 2]
            == '-')
}

/// The scalar words that YAML reads as booleans or null rather than strings.
pub open spec fn yaml_word(s: Seq<char>) -> bool {
    ||| s == "true"@
    ||| s == "True"@
    ||| s == "TRUE"@
    ||| s == "false"@
    ||| s == "False"@
    ||| s == "FALSE"@
    ||| s == "null"@
    ||| s == "Null"@
    ||| s == "NULL"@
    ||| s == "yes"@
    ||| s == "Yes"@
    ||| s == "YES"@
    ||| s == "no"@
    ||| s == "No"@
    ||| s == "NO"@
    ||| s == "on"@
    ||| s == "On"@
    ||| s == "ON"@
    ||| s == "off"@
    ||| s == "Off"@
    ||| s == "OFF"@
}

/// A value that survives a `key: value` line verbatim: it starts with a
/// letter (so it is no number, quote or indicator), holds only plain
/// characters, does not end in a space, never contains the document
/// delimiter, and is none of the words YAML reads as non-strings.
pub open spec fn plain_value(s: Seq<char>) -> bool {
    &&& s.len() > 0
    &&& ascii_letter(s[0])
    &&& (forall|i: int| 0 <= i < s.len() ==> plain_char(#[trigger] s[i]))
    &&& s.last() != ' '
    &&& no_triple_dash(s)
    &&& !yaml_word(s)
}

/// An optional field is plain when absent or plain.
pub open spec fn plain_opt(o: Option<Seq<char>>) -> bool {
    match o {
        Option::None => true,
        Option::Some(v) => plain_value(v),
    }
}

/// The characters a description value may hold: the plain set, plus the five
/// marks the repair pre-pass re-quotes. Quotes, backslashes and control
/// characters stay out, so a double-quoted scalar of these characters means
/// exactly its content.
pub open spec fn quotable_char(c: char) -> bool {
    plain_char(c) || c == '<' || c == '>' || c == ':' || c == '{' || c == '}'
}

/// The value contains a character that would be ambiguous unquoted.
pub open spec fn needs_quote(v: Seq<char>) -> bool {
    v.contains('<') || v.contains('>') || v.contains(':') || v.contains('{') || v.contains('}')
}

/// A description value: like [`plain_value`], but the five re-quoted marks
/// are allowed — the repair pre-pass wraps the line in double quotes where
/// one occurs.
pub open spec fn desc_value(s: Seq<char>) -> bool {
    &&& s.len() > 0
    &&& ascii_letter(s[0])
    &&& (forall|i: int| 0 <= i < s.len() ==> quotable_char(#[trigger] s[i]))
    &&& s.last() != ' '
    &&& no_triple_dash(s)
    &&& !yaml_word(s)
}

/// An optional description is absent or a description value.
pub open spec fn desc_opt(o: Option<Seq<char>>) -> bool {
    match o {
        Option::None => true,
        Option::Some(v) => desc_value(v),
    }
}

/// All five written header fields are in the class the trusted YAML contract
/// pins down: plain values, except the description, which may also hold the
/// re-quoted marks.
pub open spec fn simple_header(
    n: Seq<char>,
    d: Option<Seq<char>>,
    t: Option<Seq<char>>,
    m: Seq<char>,
    c: Option<Seq<char>>,
) -> bool {
    plain_value(n) && desc_opt(d) && plain_opt(t) && plain_value(m) && plain_opt(c)
}

/// One `key: value` header line.
pub open spec fn field_line(key: Seq<char>, v: Seq<char>) -> Seq<char> {
    key + v
}

/// The description line as it reaches the parser: double-quoted where the
/// value holds a re-quoted mark, verbatim otherwise.
pub open spec fn desc_line(v: Seq<char>) -> Seq<char> {
    if needs_quote(v) {
        "description: \""@ + v + seq!['"']
    } else {
        field_line("description: "@, v)
    }
}

/// The header lines as the document is written, in order; the description
/// still unquoted.
pub open spec fn enc_lines(
    n: Seq<char>,
    d: Option<Seq<char>>,
    t: Option<Seq<char>>,
    m: Seq<char>,
    c: Option<Seq<char>>,
) -> Seq<Seq<char>> {
    seq![field_line("name: "@, n)] + (match d {
        Option::None => Seq::<Seq<char>>::empty(),
        Option::Some(v) => seq![field_line("description: "@, v)],
    }) + (match t {
        Option::None => Seq::<Seq<char>>::empty(),
        Option::Some(v) => seq![field_line("tools: "@, v)],
    }) + seq![field_line("model: "@, m)] + (match c {
        Option::None => Seq::<Seq<char>>::empty(),
        Option::Some(v) => seq![field_line("color: "@, v)],
    })
}

/// The header lines as the parser sees them, after the repair pre-pass: the
/// description line quoted where its value needs it.
pub open spec fn lines_seq(
    n: Seq<char>,
    d: Option<Seq<char>>,
    t: Option<Seq<char>>,
    m: Seq<char>,
    c: Option<Seq<char>>,
) -> Seq<Seq<char>> {
    seq![field_line("name: "@, n)] + (match d {
        Option::None => Seq::<Seq<char>>::empty(),
        Option::Some(v) => seq![desc_line(v)],
    }) + (match t {
        Option::None => Seq::<Seq<char>>::empty(),
        Option::Some(v) => seq![field_line("tools: "@, v)],
    }) + seq![field_line("model: "@, m)] + (match c {
        Option::None => Seq::<Seq<char>>::empty(),
        Option::Some(v) => seq![field_line("color: "@, v)],
    })
}

/// The canonical header block: the lines joined by single newlines, with no
/// leading or trailing whitespace.
pub open spec fn header_block(
    n: Seq<char>,
    d: Option<Seq<char>>,
    t: Option<Seq<char>>,
    m: Seq<char>,
    c: Option<Seq<char>>,
) -> Seq<char> {
    text::join_lines(lines_seq(n, d, t, m, c))
}

/// The six fields a header block can carry, as plain strings.
pub struct RawHeader {
    pub name: Option<String>,
    pub description: Option<String>,
    pub tools: Option<String>,
    pub model: Option<String>,
    pub color: Option<String>,
    pub icon: Option<String>,
}

/// Ghost image of [`RawHeader`].
pub struct HeaderView {
    pub name: Option<Seq<char>>,
    pub description: Option<Seq<char>>,
    pub tools: Option<Seq<char>>,
    pub model: Option<Seq<char>>,
    pub color: Option<Seq<char>>,
    pub icon: Option<Seq<char>>,
}

/// The view of an optional string.
pub open spec fn opt_view(o: Option<String>) -> Option<Seq<char>> {
    match o {
        Option::None => Option::None,
        Option::Some(s) => Option::Some(s@),
    }
}

impl View for RawHeader {
    type V = HeaderView;

    open spec fn view(&self) -> HeaderView {
        HeaderView {
            name: opt_view(self.name),
            description: opt_view(self.description),
            tools: opt_view(self.tools),
            model: opt_view(self.model),
            color: opt_view(self.color),
            icon: opt_view(self.icon),
        }
    }
}

/// The parse came back with exactly the six fields of a canonical header.
pub open spec fn canonical_parse(
    r: Result<RawHeader, String>,
    n: Seq<char>,
    d: Option<Seq<char>>,
    t: Option<Seq<char>>,
    m: Seq<char>,
    c: Option<Seq<char>>,
) -> bool {
    r matches Result::Ok(h) && h@ == (HeaderView {
        name: Some(n),
        description: d,
        tools: t,
        model: Some(m),
        color: c,
        icon: None,
    })
}

/// What the YAML parser makes of a header block: `None` where the block is
/// not a well-formed mapping or a known field holds anything but a string or
/// null, and otherwise the six fields (absent and null both read as `None`).
/// The result depends on the block's characters alone.
pub uninterp spec fn header_of(y: Seq<char>) -> Option<HeaderView>;

/// Relies on `serde_yaml::from_str::<serde_yaml::Value>` and
/// `serde_yaml::Value::{get, as_str}`: parses a header block as a YAML
/// mapping and takes the six known fields out of it. A missing field and an
/// explicit null are both `None`; a field holding a non-string, non-null
/// value is an error, as is text that is not well-formed YAML. The second
/// clause holds because YAML reads a `key: value` line with a plain scalar
/// value (in the sense of [`plain_value`]) as exactly that string entry, and
/// a double-quoted scalar holding no quote, backslash or control character
/// (the description line after the repair pre-pass) as exactly its content.
#[verifier::external_body]
pub(crate) fn parse_header(y: &str) -> (r: Result<RawHeader, String>)
    ensures
        (match r {
            Result::Ok(h) => header_of(y@) == Some(h@),
            Result::Err(_) => header_of(y@) is None,
        }),
        forall|
            n: Seq<char>,
            d: Option<Seq<char>>,
            t: Option<Seq<char>>,
            m: Seq<char>,
            c: Option<Seq<char>>,
        |
            simple_header(n, d, t, m, c) && y@ == #[trigger] header_block(n, d, t, m, c)
                ==> canonical_parse(r, n, d, t, m, c),
{
    let v: serde_yaml::Value = serde_yaml::from_str(y).map_err(|e| e.to_string())?;
    let field = |k: &str| match v.get(k) {
        None | Some(serde_yaml::Value::Null) => Ok(None),
        Some(serde_yaml::Value::String(s)) => Ok(Some(s.clone())),
        Some(_) => Err(format!("field `{}` holds a non-string value", k)),
    };
    Ok(RawHeader {
        name: field("name")?, description: field("description")?, tools: field("tools")?,
        model: field("model")?, color: field("color")?, icon: field("icon")?,
    })
}

} // verus!
