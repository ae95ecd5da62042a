//! The definition codec: decodes an agent definition document (a YAML-style
//! header between `---` delimiters followed by a free-text body) into a
//! typed record, and encodes a record back into the same document form with
//! a stable field order.

use vstd::prelude::*;

use crate::header;
use crate::header::{opt_view, HeaderView};
use crate::text;

verus! {

/// An agent definition.
#[derive(Clone)]
pub struct Agent {
    /// Listing position; file-backed definitions have none of their own.
    pub id: Option<i64>,
    /// Display name; also the source of the storage slug.
    pub name: String,
    /// Display glyph, carried in memory only and never written to documents.
    pub icon: String,
    /// The free-text instruction body.
    pub system_prompt: String,
    /// Optional task preset.
    pub default_task: Option<String>,
    /// Model name; `inherit` where a document names none.
    pub model: String,
    /// Permission default: reading files.
    pub enable_file_read: bool,
    /// Permission default: writing files.
    pub enable_file_write: bool,
    /// Permission default: network access.
    pub enable_network: bool,
    /// Hook configuration, as a JSON string.
    pub hooks: Option<String>,
    /// Creation timestamp, RFC3339 text.
    pub created_at: String,
    /// Modification timestamp, RFC3339 text.
    pub updated_at: String,
    /// Optional description from the header.
    pub description: Option<String>,
    /// Optional comma-separated tool list from the header.
    pub tools: Option<String>,
    /// Optional display color, first letter uppercased on decode.
    pub color: Option<String>,
}

/// Why a document failed to decode.
#[derive(Debug)]
pub enum DecodeError {
    /// Fewer than three delimiter-separated segments.
    MissingHeader,
    /// The header block is not a usable mapping; carries the parser's words.
    InvalidHeader(String),
    /// The body is empty or whitespace-only.
    EmptyBody,
}

impl DecodeError {
    /// A human-readable cause.
    pub fn message(&self) -> (r: String)
        ensures
            match self {
                DecodeError::MissingHeader => r@
                    == "Invalid agent file format: missing YAML frontmatter"@,
                DecodeError::InvalidHeader(d) => r@ == d@,
                DecodeError::EmptyBody => r@
                    == "Agent file must contain a system prompt after the frontmatter"@,
            },
    {
        match self {
            DecodeError::MissingHeader => String::from_str(
                "Invalid agent file format: missing YAML frontmatter",
            ),
            DecodeError::InvalidHeader(d) => d.clone(),
            DecodeError::EmptyBody => String::from_str(
                "Agent file must contain a system prompt after the frontmatter",
            ),
        }
    }
}

/// The kind of a decode failure.
pub enum DecodeKind {
    MissingHeader,
    InvalidHeader,
    EmptyBody,
}

/// The kind of a [`DecodeError`].
pub open spec fn err_kind(e: DecodeError) -> DecodeKind {
    match e {
        DecodeError::MissingHeader => DecodeKind::MissingHeader,
        DecodeError::InvalidHeader(_) => DecodeKind::InvalidHeader,
        DecodeError::EmptyBody => DecodeKind::EmptyBody,
    }
}

/// What a successful decode yields.
pub struct DecodedView {
    pub name: Seq<char>,
    pub description: Option<Seq<char>>,
    pub tools: Option<Seq<char>>,
    pub model: Seq<char>,
    pub color: Option<Seq<char>>,
    pub system_prompt: Seq<char>,
}

/// The document delimiter.
pub open spec fn delim() -> Seq<char> {
    seq!['-', '-', '-']
}

/// The document split on its first two delimiter occurrences: one, two or
/// three segments.
pub open spec fn split3(s: Seq<char>) -> Seq<Seq<char>> {
    match text::find_from(s, 0, delim()) {
        Option::None => seq![s],
        Option::Some(i) => match text::find_from(s, i + 3, delim()) {
            Option::None => seq![s.subrange(0, i), s.subrange(i + 3, s.len() as int)],
            Option::Some(j) => seq![
                s.subrange(0, i),
                s.subrange(i + 3, j),
                s.subrange(j + 3, s.len() as int),
            ],
        },
    }
}

/// The header key whose value the pre-pass may re-quote.
pub open spec fn dkey() -> Seq<char> {
    "description:"@
}

/// `k` spaces.
pub open spec fn spaces(k: int) -> Seq<char> {
    Seq::new(k as nat, |i: int| ' ')
}

/// The header repair pre-pass, on one line: a `description:` line whose
/// value is unquoted, nonempty and holds an ambiguous character has its
/// value re-wrapped in double quotes; every other line passes unchanged.
pub open spec fn repair_line(line: Seq<char>) -> Seq<char> {
    let t = text::trim_spec(line);
    if !text::match_at(t, 0, dkey()) {
        line
    } else {
        match text::find_from(line, 0, dkey()) {
            Option::None => line,
            Option::Some(i) => {
                let v = text::trim_spec(line.subrange(i + 12, line.len() as int));
                if v.len() == 0 || v[0] == '"' || v[0] == '\'' || !header::needs_quote(v) {
                    line
                } else {
                    spaces(line.len() - text::trim_start_spec(line).len()) + "description: \""@
                        + v + seq!['"']
                }
            },
        }
    }
}

/// The repair pre-pass over a sequence of lines.
pub open spec fn repair_all(ls: Seq<Seq<char>>) -> Seq<Seq<char>> {
    ls.map_values(|l: Seq<char>| repair_line(l))
}

/// The repair pre-pass over a whole header block, line by line.
pub open spec fn preprocess_spec(s: Seq<char>) -> Seq<char> {
    text::join_lines(repair_all(text::lines_spec(s)))
}

/// The first character uppercased where it is an ASCII lowercase letter.
pub open spec fn to_upper_ascii(c: char) -> char {
    if 'a' <= c && c <= 'z' {
        ((c as u8) - 32) as char
    } else {
        c
    }
}

/// Color normalization: the first character uppercased, the rest unchanged.
pub open spec fn upper_first(s: Seq<char>) -> Seq<char> {
    if s.len() == 0 {
        s
    } else {
        seq![to_upper_ascii(s[0])] + s.drop_first()
    }
}

/// An optional color, normalized when present.
pub open spec fn norm_color(c: Option<Seq<char>>) -> Option<Seq<char>> {
    match c {
        Option::None => Option::None,
        Option::Some(v) => Option::Some(upper_first(v)),
    }
}

/// What decoding a document yields: the segments, the repaired and parsed
/// header, the required name, the trimmed nonempty body, the model default
/// and the normalized color — or the first failure.
pub open spec fn decode_spec(s: Seq<char>) -> Result<DecodedView, DecodeKind> {
    let parts = split3(s);
    if parts.len() < 3 {
        Result::Err(DecodeKind::MissingHeader)
    } else {
        let y = preprocess_spec(text::trim_spec(parts[1]));
        match header::header_of(y) {
            Option::None => Result::Err(DecodeKind::InvalidHeader),
            Option::Some(h) => match h.name {
                Option::None => Result::Err(DecodeKind::InvalidHeader),
                Option::Some(nm) => {
                    let body = text::trim_spec(parts[2]);
                    if body.len() == 0 {
                        Result::Err(DecodeKind::EmptyBody)
                    } else {
                        Result::Ok(
                            DecodedView {
                                name: nm,
                                description: h.description,
                                tools: h.tools,
                                model: match h.model {
                                    Option::None => "inherit"@,
                                    Option::Some(m) => m,
                                },
                                color: norm_color(h.color),
                                system_prompt: body,
                            },
                        )
                    }
                },
            },
        }
    }
}

/// One optional header line, `key: value` plus newline, or nothing.
pub open spec fn opt_line(key: Seq<char>, v: Option<Seq<char>>) -> Seq<char> {
    match v {
        Option::None => Seq::<char>::empty(),
        Option::Some(x) => key + x + "\n"@,
    }
}

/// The header text a document is written with: one line per present field,
/// in the fixed order name, description, tools, model, color.
pub open spec fn flat_header(
    n: Seq<char>,
    d: Option<Seq<char>>,
    t: Option<Seq<char>>,
    m: Seq<char>,
    c: Option<Seq<char>>,
) -> Seq<char> {
    "name: "@ + n + "\n"@ + opt_line("description: "@, d) + opt_line("tools: "@, t) + "model: "@
        + m + "\n"@ + opt_line("color: "@, c)
}

/// The full document written for the given fields: delimiter, header,
/// delimiter, blank line, body.
pub open spec fn encode_fields(
    n: Seq<char>,
    d: Option<Seq<char>>,
    t: Option<Seq<char>>,
    m: Seq<char>,
    c: Option<Seq<char>>,
    p: Seq<char>,
) -> Seq<char> {
    "---\n"@ + flat_header(n, d, t, m, c) + "---\n\n"@ + p
}

/// The document written for an agent.
pub open spec fn encode_spec(a: Agent) -> Seq<char> {
    encode_fields(
        a.name@,
        opt_view(a.description),
        opt_view(a.tools),
        a.model@,
        opt_view(a.color),
        a.system_prompt@,
    )
}

/// The decoded fields equal the record's.
pub open spec fn agent_matches(a: Agent, d: DecodedView) -> bool {
    &&& a.name@ == d.name
    &&& opt_view(a.description) == d.description
    &&& opt_view(a.tools) == d.tools
    &&& a.model@ == d.model
    &&& opt_view(a.color) == d.color
    &&& a.system_prompt@ == d.system_prompt
}

/// The fixed policy fields of a freshly decoded agent.
pub open spec fn fresh_defaults(a: Agent) -> bool {
    &&& a.id is None
    &&& a.icon@ == "\u{1F916}"@
    &&& a.default_task is None
    &&& a.hooks is None
    &&& a.enable_file_read
    &&& a.enable_file_write
    &&& !a.enable_network
    &&& a.created_at@ == a.updated_at@
}

/// The inputs for which a document the library itself wrote decodes back to
/// the same fields: plain header values (the description may also hold the
/// marks the repair pre-pass re-quotes) and a trimmed, nonempty body.
pub open spec fn canonical_input(
    n: Seq<char>,
    d: Option<Seq<char>>,
    t: Option<Seq<char>>,
    m: Seq<char>,
    c: Option<Seq<char>>,
    p: Seq<char>,
) -> bool {
    header::simple_header(n, d, t, m, c) && p.len() > 0 && text::trim_spec(p) == p
}

/// Decoding succeeded and reproduced every encoded field; the color comes
/// back normalized.
pub open spec fn round_trip_ok(
    r: Result<Agent, DecodeError>,
    n: Seq<char>,
    d: Option<Seq<char>>,
    t: Option<Seq<char>>,
    m: Seq<char>,
    c: Option<Seq<char>>,
    p: Seq<char>,
) -> bool {
    r matches Result::Ok(a) && a.name@ == n && opt_view(a.description) == d && opt_view(a.tools)
        == t && a.model@ == m && opt_view(a.color) == norm_color(c) && a.system_prompt@ == p
}

/// Relies on `chrono::Utc::now` and `chrono::DateTime::to_rfc3339`: the
/// current time as RFC3339 text. Nothing is claimed of the value: it depends
/// on the clock.
#[verifier::external_body]
pub(crate) fn now_rfc3339() -> String {
    chrono::Utc::now().to_rfc3339()
}

/// Lowercasing of one character for the slug: the ASCII range, plus the two
/// letters outside it whose lowercase is an ASCII letter (the Kelvin sign
/// and the dotted capital I) — every other character lowercases, if at all,
/// to something the slug filter drops anyway.
pub open spec fn slug_lower(c: char) -> char {
    if 'A' <= c && c <= 'Z' {
        ((c as u8) + 32) as char
    } else if c == '\u{212A}' {
        'k'
    } else if c == '\u{0130}' {
        'i'
    } else {
        c
    }
}

/// Space and underscore become hyphens.
pub open spec fn dashify(c: char) -> char {
    if c == ' ' || c == '_' {
        '-'
    } else {
        c
    }
}

/// The character a slug keeps: lowercase ASCII letters, digits, hyphens.
pub open spec fn slug_keep(c: char) -> bool {
    ('a' <= c && c <= 'z') || header::ascii_digit(c) || c == '-'
}

/// What one name character contributes to the slug.
pub open spec fn slug_map(c: char) -> char {
    dashify(slug_lower(c))
}

/// The kept, mapped characters of a name, in order.
pub open spec fn slug_core(s: Seq<char>) -> Seq<char>
    decreases s.len(),
{
    if s.len() == 0 {
        Seq::<char>::empty()
    } else {
        slug_core(s.drop_last()) + (if slug_keep(slug_map(s.last())) {
            seq![slug_map(s.last())]
        } else {
            Seq::<char>::empty()
        })
    }
}

/// The storage slug of a name: mapped, filtered, with the fixed suffix.
pub open spec fn slug_spec(s: Seq<char>) -> Seq<char> {
    slug_core(s) + ".md"@
}

/// Parser and writer for agent definition documents.
pub struct AgentParser;

impl AgentParser {
    /// Re-quotes ambiguous unquoted `description:` values, line by line.
    pub fn preprocess_yaml(yaml_content: &str) -> (r: String)
        ensures
            r@ == preprocess_spec(yaml_content@),
    {
        let ls = text::lines(yaml_content);
        let ghost mapped = repair_all(text::lines_spec(yaml_content@));
        let mut out = String::new();
        let n = ls.len();
        let mut k: usize = 0;
        proof {
            assert(mapped.subrange(0, 0) =~= Seq::<Seq<char>>::empty());
        }
        while k < n
            invariant
                0 <= k <= n,
                n == ls.deep_view().len(),
                ls.deep_view() == text::lines_spec(yaml_content@),
                mapped == repair_all(text::lines_spec(yaml_content@)),
                out@ == text::join_lines(mapped.subrange(0, k as int)),
            decreases n - k,
        {
            proof {
                assert(ls[k as int]@ == ls.deep_view()[k as int]);
                assert(mapped[k as int] == repair_line(ls.deep_view()[k as int]));
                assert(mapped.subrange(0, k + 1).drop_last() =~= mapped.subrange(0, k as int));
                assert(mapped.subrange(0, k + 1).last() == mapped[k as int]);
            }
            if k > 0 {
                text::push_char(&mut out, '\n');
            }
            let fixed = Self::repair_line_exec(ls[k].as_str());
            text::push_str(&mut out, fixed.as_str());
            proof {
                lemma_join_snoc(mapped.subrange(0, k + 1));
                assert(out@ =~= text::join_lines(mapped.subrange(0, k + 1)));
            }
            k = k + 1;
        }
        proof {
            assert(mapped.subrange(0, n as int) =~= mapped);
        }
        out
    }

    /// The repair pre-pass on one header line.
    fn repair_line_exec(line: &str) -> (r: String)
        ensures
            r@ == repair_line(line@),
    {
        let t = text::trim(line);
        if !text::starts_with(t.as_str(), "description:") {
            return line.to_owned();
        }
        proof {
            reveal_strlit("description:");
        }
        let found = text::find_sub(line, 0, "description:");
        let i = match found {
            Option::Some(i) => i,
            Option::None => {
                return line.to_owned();
            },
        };
        proof {
            text::lemma_find_some(line@, 0, dkey());
        }
        let n = line.unicode_len();
        let v = text::trim(line.substring_char(i + 12, n));
        if v.unicode_len() == 0 {
            return line.to_owned();
        }
        let c0 = v.as_str().get_char(0);
        if c0 == '"' || c0 == '\'' {
            return line.to_owned();
        }
        let special = text::contains_char(v.as_str(), '<') || text::contains_char(v.as_str(), '>')
            || text::contains_char(v.as_str(), ':') || text::contains_char(v.as_str(), '{')
            || text::contains_char(v.as_str(), '}');
        if !special {
            return line.to_owned();
        }
        let mut sp: usize = 0;
        while sp < n && is_space_at(line, sp)
            invariant
                0 <= sp <= n,
                n == line@.len(),
                forall|j: int| 0 <= j < sp ==> text::is_space(line@[j]),
            decreases n - sp,
        {
            sp = sp + 1;
        }
        proof {
            text::lemma_trim_start_idx(line@, sp as int);
        }
        let mut out = String::new();
        let mut q: usize = 0;
        while q < sp
            invariant
                0 <= q <= sp,
                out@ =~= spaces(q as int),
            decreases sp - q,
        {
            text::push_char(&mut out, ' ');
            proof {
                assert(out@ =~= spaces(q + 1));
            }
            q = q + 1;
        }
        text::push_str(&mut out, "description: \"");
        text::push_str(&mut out, v.as_str());
        text::push_char(&mut out, '"');
        proof {
            assert(out@ =~= repair_line(line@));
        }
        out
    }

    /// Decodes an agent definition document.
    ///
    /// The document is split on its delimiter into at most three segments;
    /// fewer than three is `MissingHeader`. The second segment, trimmed and
    /// run through the repair pre-pass, must parse as a header mapping with
    /// a `name`, else `InvalidHeader`. The third segment, trimmed, is the
    /// instruction body and must be nonempty, else `EmptyBody`. The model
    /// defaults to `inherit`, the color's first letter is uppercased, and
    /// permission flags take their fixed defaults. Both timestamps are
    /// stamped with one reading of the clock.
    ///
    /// Round trip: a document that [`Self::generate_markdown`] wrote for
    /// plain header values (see [`crate::header::plain_value`]; the
    /// description may also hold the re-quoted marks of
    /// [`crate::header::desc_value`]) and a trimmed, nonempty body decodes
    /// back to the same name, description, tools, model and body, and to the
    /// normalized color — the second `ensures` clause states exactly that.
    pub fn parse_file(content: &str) -> (r: Result<Agent, DecodeError>)
        ensures
            match r {
                Result::Ok(a) => decode_spec(content@) matches Result::Ok(d) && agent_matches(a, d)
                    && fresh_defaults(a),
                Result::Err(e) => decode_spec(content@) == Result::Err::<DecodedView, DecodeKind>(
                    err_kind(e),
                ),
            },
            forall|
                n: Seq<char>,
                d: Option<Seq<char>>,
                t: Option<Seq<char>>,
                m: Seq<char>,
                c: Option<Seq<char>>,
                p: Seq<char>,
            |
                canonical_input(n, d, t, m, c, p) && content@ == #[trigger] encode_fields(
                    n,
                    d,
                    t,
                    m,
                    c,
                    p,
                ) ==> round_trip_ok(r, n, d, t, m, c, p),
    {
        proof {
            reveal_strlit("---");
            assert("---"@ =~= delim());
        }
        let n = content.unicode_len();
        let first = text::find_sub(content, 0, "---");
        let i = match first {
            Option::Some(i) => i,
            Option::None => {
                proof {
                    assert forall|
                        n: Seq<char>,
                        d: Option<Seq<char>>,
                        t: Option<Seq<char>>,
                        m: Seq<char>,
                        c: Option<Seq<char>>,
                        p: Seq<char>,
                    |
                        canonical_input(n, d, t, m, c, p) && content@ == #[trigger] encode_fields(
                            n,
                            d,
                            t,
                            m,
                            c,
                            p,
                        ) implies round_trip_ok(
                        Result::Err(DecodeError::MissingHeader),
                        n,
                        d,
                        t,
                        m,
                        c,
                        p,
                    ) by {
                        lemma_canonical_split(n, d, t, m, c, p);
                    }
                }
                return Result::Err(DecodeError::MissingHeader);
            },
        };
        proof {
            text::lemma_find_some(content@, 0, delim());
        }
        let second = text::find_sub(content, i + 3, "---");
        let j = match second {
            Option::Some(j) => j,
            Option::None => {
                proof {
                    assert forall|
                        n: Seq<char>,
                        d: Option<Seq<char>>,
                        t: Option<Seq<char>>,
                        m: Seq<char>,
                        c: Option<Seq<char>>,
                        p: Seq<char>,
                    |
                        canonical_input(n, d, t, m, c, p) && content@ == #[trigger] encode_fields(
                            n,
                            d,
                            t,
                            m,
                            c,
                            p,
                        ) implies round_trip_ok(
                        Result::Err(DecodeError::MissingHeader),
                        n,
                        d,
                        t,
                        m,
                        c,
                        p,
                    ) by {
                        lemma_canonical_split(n, d, t, m, c, p);
                    }
                }
                return Result::Err(DecodeError::MissingHeader);
            },
        };
        proof {
            text::lemma_find_some(content@, i + 3, delim());
        }
        let header_trimmed = text::trim(content.substring_char(i + 3, j));
        let preprocessed = Self::preprocess_yaml(header_trimmed.as_str());
        let parsed = header::parse_header(preprocessed.as_str());
        let ghost header_seg = content@.subrange(i + 3, j as int);
        let h = match parsed {
            Result::Ok(h) => h,
            Result::Err(e) => {
                let mut msg = String::from_str("Failed to parse YAML frontmatter: ");
                text::push_str(&mut msg, e.as_str());
                let out = Result::Err(DecodeError::InvalidHeader(msg));
                proof {
                    assert forall|
                        n: Seq<char>,
                        d: Option<Seq<char>>,
                        t: Option<Seq<char>>,
                        m: Seq<char>,
                        c: Option<Seq<char>>,
                        p: Seq<char>,
                    |
                        canonical_input(n, d, t, m, c, p) && content@ == #[trigger] encode_fields(
                            n,
                            d,
                            t,
                            m,
                            c,
                            p,
                        ) implies round_trip_ok(out, n, d, t, m, c, p) by {
                        lemma_canonical_split(n, d, t, m, c, p);
                        assert(split3(content@)[1] == header_seg);
                        assert(preprocessed@ == header::header_block(n, d, t, m, c));
                        assert(header::canonical_parse(parsed, n, d, t, m, c));
                    }
                }
                return out;
            },
        };
        let ghost hv = h@;
        let name = match h.name {
            Option::Some(nm) => nm,
            Option::None => {
                let out = Result::Err(
                    DecodeError::InvalidHeader(
                        String::from_str("Failed to parse YAML frontmatter: missing field name"),
                    ),
                );
                proof {
                    assert forall|
                        n: Seq<char>,
                        d: Option<Seq<char>>,
                        t: Option<Seq<char>>,
                        m: Seq<char>,
                        c: Option<Seq<char>>,
                        p: Seq<char>,
                    |
                        canonical_input(n, d, t, m, c, p) && content@ == #[trigger] encode_fields(
                            n,
                            d,
                            t,
                            m,
                            c,
                            p,
                        ) implies round_trip_ok(out, n, d, t, m, c, p) by {
                        lemma_canonical_split(n, d, t, m, c, p);
                        assert(split3(content@)[1] == header_seg);
                        assert(preprocessed@ == header::header_block(n, d, t, m, c));
                        assert(header::canonical_parse(parsed, n, d, t, m, c));
                    }
                }
                return out;
            },
        };
        let body = text::trim(content.substring_char(j + 3, n));
        let ghost body_seg = content@.subrange(j + 3, n as int);
        if body.as_str().unicode_len() == 0 {
            proof {
                assert forall|
                    nn: Seq<char>,
                    d: Option<Seq<char>>,
                    t: Option<Seq<char>>,
                    m: Seq<char>,
                    c: Option<Seq<char>>,
                    p: Seq<char>,
                |
                    canonical_input(nn, d, t, m, c, p) && content@ == #[trigger] encode_fields(
                        nn,
                        d,
                        t,
                        m,
                        c,
                        p,
                    ) implies round_trip_ok(
                    Result::Err(DecodeError::EmptyBody),
                    nn,
                    d,
                    t,
                    m,
                    c,
                    p,
                ) by {
                    lemma_canonical_split(nn, d, t, m, c, p);
                    assert(split3(content@)[2] == body_seg);
                    assert(body@ == p);
                }
            }
            return Result::Err(DecodeError::EmptyBody);
        }
        let now = now_rfc3339();
        let color = match h.color {
            Option::Some(c) => Option::Some(Self::normalize_color(c.as_str())),
            Option::None => Option::None,
        };
        let model = match h.model {
            Option::Some(m) => m,
            Option::None => String::from_str("inherit"),
        };
        let out = Result::Ok(
            Agent {
                id: Option::None,
                name,
                icon: String::from_str("\u{1F916}"),
                system_prompt: body,
                default_task: Option::None,
                model,
                enable_file_read: true,
                enable_file_write: true,
                enable_network: false,
                hooks: Option::None,
                created_at: now.clone(),
                updated_at: now,
                description: h.description,
                tools: h.tools,
                color,
            },
        );
        proof {
            assert forall|
                nn: Seq<char>,
                d: Option<Seq<char>>,
                t: Option<Seq<char>>,
                m: Seq<char>,
                c: Option<Seq<char>>,
                p: Seq<char>,
            |
                canonical_input(nn, d, t, m, c, p) && content@ == #[trigger] encode_fields(
                    nn,
                    d,
                    t,
                    m,
                    c,
                    p,
                ) implies round_trip_ok(out, nn, d, t, m, c, p) by {
                lemma_canonical_split(nn, d, t, m, c, p);
                assert(split3(content@)[1] == header_seg);
                assert(split3(content@)[2] == body_seg);
                assert(preprocessed@ == header::header_block(nn, d, t, m, c));
                assert(header::canonical_parse(parsed, nn, d, t, m, c));
                assert(hv == (HeaderView {
                    name: Some(nn),
                    description: d,
                    tools: t,
                    model: Some(m),
                    color: c,
                    icon: None,
                }));
                assert(body@ == p);
            }
        }
        out
    }

    /// Uppercases the first character of a color value, ASCII range.
    pub fn normalize_color(c: &str) -> (r: String)
        ensures
            r@ == upper_first(c@),
    {
        let n = c.unicode_len();
        if n == 0 {
            return String::new();
        }
        let c0 = c.get_char(0);
        let u = if 'a' <= c0 && c0 <= 'z' {
            ((c0 as u8) - 32) as char
        } else {
            c0
        };
        let mut out = String::new();
        text::push_char(&mut out, u);
        let rest = c.substring_char(1, n);
        text::push_str(&mut out, rest);
        proof {
            assert(out@ =~= upper_first(c@));
        }
        out
    }

    /// Writes the document for an agent: delimiter, the present header
    /// fields in fixed order, delimiter, blank line, body. The `icon` field
    /// is never written.
    pub fn generate_markdown(agent: &Agent) -> (r: String)
        ensures
            r@ == encode_spec(*agent),
    {
        let mut out = String::from_str("---\n");
        push_line(&mut out, "name: ", agent.name.as_str());
        push_opt_line(&mut out, "description: ", &agent.description);
        push_opt_line(&mut out, "tools: ", &agent.tools);
        push_line(&mut out, "model: ", agent.model.as_str());
        push_opt_line(&mut out, "color: ", &agent.color);
        text::push_str(&mut out, "---\n\n");
        text::push_str(&mut out, agent.system_prompt.as_str());
        proof {
            assert(out@ =~= encode_spec(*agent));
        }
        out
    }

    /// Derives the storage filename for a name: lowercased, spaces and
    /// underscores as hyphens, everything else but ASCII alphanumerics and
    /// hyphens dropped, with the fixed suffix appended. Total: every name,
    /// even an empty or all-punctuation one, yields a filename.
    pub fn name_to_filename(name: &str) -> (r: String)
        ensures
            r@ == slug_spec(name@),
    {
        let n = name.unicode_len();
        let mut out = String::new();
        let mut i: usize = 0;
        proof {
            assert(name@.subrange(0, 0) =~= Seq::<char>::empty());
        }
        while i < n
            invariant
                0 <= i <= n,
                n == name@.len(),
                out@ == slug_core(name@.subrange(0, i as int)),
            decreases n - i,
        {
            let c = name.get_char(i);
            let low = if 'A' <= c && c <= 'Z' {
                ((c as u8) + 32) as char
            } else if c == '\u{212A}' {
                'k'
            } else if c == '\u{0130}' {
                'i'
            } else {
                c
            };
            let mapped = if low == ' ' || low == '_' {
                '-'
            } else {
                low
            };
            let keep = ('a' <= mapped && mapped <= 'z') || ('0' <= mapped && mapped <= '9')
                || mapped == '-';
            proof {
                assert(name@.subrange(0, i + 1).drop_last() =~= name@.subrange(0, i as int));
                assert(name@.subrange(0, i + 1).last() == name@[i as int]);
            }
            if keep {
                text::push_char(&mut out, mapped);
                proof {
                    assert(out@ =~= slug_core(name@.subrange(0, i + 1)));
                }
            }
            i = i + 1;
        }
        proof {
            assert(name@.subrange(0, n as int) =~= name@);
        }
        text::push_str(&mut out, ".md");
        out
    }
}

/// Appends one `key: value` header line.
fn push_line(out: &mut String, key: &str, v: &str)
    ensures
        final(out)@ == old(out)@ + (key@ + v@ + "\n"@),
{
    text::push_str(out, key);
    text::push_str(out, v);
    text::push_str(out, "\n");
    proof {
        assert(final(out)@ =~= old(out)@ + (key@ + v@ + "\n"@));
    }
}

/// Appends one optional header line, or nothing.
fn push_opt_line(out: &mut String, key: &str, v: &Option<String>)
    ensures
        final(out)@ == old(out)@ + opt_line(key@, opt_view(*v)),
{
    match v {
        Option::Some(x) => {
            push_line(out, key, x.as_str());
        },
        Option::None => {
            proof {
                assert(final(out)@ =~= old(out)@ + opt_line(key@, opt_view(*v)));
            }
        },
    }
}

/// Whether the character at `i` is whitespace.
fn is_space_at(s: &str, i: usize) -> (r: bool)
    requires
        i < s@.len(),
    ensures
        r == text::is_space(s@[i as int]),
{
    text::is_space_char(s.get_char(i))
}

/// Joining one more line appends a newline and the line.
proof fn lemma_join_snoc(ls: Seq<Seq<char>>)
    requires
        ls.len() >= 1,
    ensures
        text::join_lines(ls) == if ls.len() == 1 {
            ls[0]
        } else {
            text::join_lines(ls.drop_last()) + seq!['\n'] + ls.last()
        },
    decreases ls.len(),
{
    if ls.len() > 1 {
        lemma_join_snoc(ls.drop_first());
        assert(ls.drop_first().drop_last() =~= ls.drop_last().drop_first());
        if ls.len() == 2 {
            assert(text::join_lines(ls.drop_last()) == ls[0]);
            assert(text::join_lines(ls) =~= ls[0] + seq!['\n'] + ls.last());
        } else {
            assert(text::join_lines(ls) == ls[0] + seq!['\n'] + text::join_lines(ls.drop_first()));
            assert(text::join_lines(ls.drop_first()) == text::join_lines(
                ls.drop_first().drop_last(),
            ) + seq!['\n'] + ls.drop_first().last());
            assert(text::join_lines(ls.drop_last()) == ls.drop_last()[0] + seq!['\n']
                + text::join_lines(ls.drop_last().drop_first()));
            assert(text::join_lines(ls) =~= text::join_lines(ls.drop_last()) + seq!['\n']
                + ls.last());
        }
    }
}

} // verus!

verus! {

/// The views of the literal pieces the codec writes, spelled out.
proof fn lemma_literals()
    ensures
        "name: "@ == seq!['n', 'a', 'm', 'e', ':', ' '],
        "description: "@ == seq!['d', 'e', 's', 'c', 'r', 'i', 'p', 't', 'i', 'o', 'n', ':', ' '],
        "tools: "@ == seq!['t', 'o', 'o', 'l', 's', ':', ' '],
        "model: "@ == seq!['m', 'o', 'd', 'e', 'l', ':', ' '],
        "color: "@ == seq!['c', 'o', 'l', 'o', 'r', ':', ' '],
        "description:"@ == seq!['d', 'e', 's', 'c', 'r', 'i', 'p', 't', 'i', 'o', 'n', ':'],
        "---\n"@ == seq!['-', '-', '-', '\n'],
        "---\n\n"@ == seq!['-', '-', '-', '\n', '\n'],
        "\n"@ == seq!['\n'],
{
    reveal_strlit("name: ");
    reveal_strlit("description: ");
    reveal_strlit("tools: ");
    reveal_strlit("model: ");
    reveal_strlit("color: ");
    reveal_strlit("description:");
    reveal_strlit("---\n");
    reveal_strlit("---\n\n");
    reveal_strlit("\n");
    assert("name: "@ =~= seq!['n', 'a', 'm', 'e', ':', ' ']);
    assert("description: "@ =~= seq!['d', 'e', 's', 'c', 'r', 'i', 'p', 't', 'i', 'o', 'n', ':', ' ']);
    assert("tools: "@ =~= seq!['t', 'o', 'o', 'l', 's', ':', ' ']);
    assert("model: "@ =~= seq!['m', 'o', 'd', 'e', 'l', ':', ' ']);
    assert("color: "@ =~= seq!['c', 'o', 'l', 'o', 'r', ':', ' ']);
    assert("description:"@ =~= seq!['d', 'e', 's', 'c', 'r', 'i', 'p', 't', 'i', 'o', 'n', ':']);
    assert("---\n"@ =~= seq!['-', '-', '-', '\n']);
    assert("---\n\n"@ =~= seq!['-', '-', '-', '\n', '\n']);
    assert("\n"@ =~= seq!['\n']);
}

/// A plain value is also in the wider description class.
proof fn lemma_plain_is_desc(v: Seq<char>)
    requires
        header::plain_value(v),
    ensures
        header::desc_value(v),
{
    assert forall|i: int| 0 <= i < v.len() implies header::quotable_char(#[trigger] v[i]) by {
        assert(header::plain_char(v[i]));
    }
}

/// A `key: value` line with a plain or quotable value is nonempty,
/// newline-free, carriage-return-free, has no triple dash, and neither
/// starts nor ends in whitespace.
proof fn lemma_line_good(key: Seq<char>, v: Seq<char>)
    requires
        key.len() > 0,
        !text::is_space(key[0]),
        key[0] != '-',
        forall|i: int| 0 <= i < key.len() ==> #[trigger] key[i] != '\n' && key[i] != '-',
        header::desc_value(v),
    ensures
        ({
            let l = header::field_line(key, v);
            &&& l.len() > 0
            &&& text::no_nl(l)
            &&& l.last() != '\r'
            &&& !text::is_space(l.last())
            &&& header::no_triple_dash(l)
            &&& l[0] == key[0]
        }),
{
    let l = header::field_line(key, v);
    assert(l.last() == v.last());
    assert(header::quotable_char(v.last()));
    assert forall|i: int| 0 <= i < l.len() implies #[trigger] l[i] != '\n' by {
        if i >= key.len() {
            assert(header::quotable_char(v[i - key.len()]));
        }
    }
    assert forall|i: int|
        0 <= i && i + 3 <= l.len() implies !(#[trigger] l[i] == '-' && l[i + 1] == '-' && l[i + 2]
        == '-') by {
        if i >= key.len() {
            assert(!(v[i - key.len()] == '-' && v[i - key.len() + 1] == '-' && v[i - key.len() + 2]
                == '-'));
        } else {
            assert(l[i] == key[i]);
        }
    }
}

/// Joining newline-free nonempty lines yields a text with no triple dash
/// whose first and last characters are the first line's first and the last
/// line's last.
proof fn lemma_no3_join(ls: Seq<Seq<char>>)
    requires
        ls.len() >= 1,
        forall|k: int| 0 <= k < ls.len() ==> (#[trigger] ls[k]).len() > 0,
        forall|k: int| 0 <= k < ls.len() ==> header::no_triple_dash(#[trigger] ls[k]),
    ensures
        header::no_triple_dash(text::join_lines(ls)),
        text::join_lines(ls)[0] == ls[0][0],
        text::join_lines(ls).last() == ls.last().last(),
        text::join_lines(ls).len() > 0,
    decreases ls.len(),
{
    let jn = text::join_lines(ls);
    if ls.len() == 1 {
        assert(jn == ls[0]);
    } else {
        let rest = ls.drop_first();
        lemma_no3_join(rest);
        let jr = text::join_lines(rest);
        let l0 = ls[0];
        let n0 = l0.len() as int;
        assert(jn == l0 + seq!['\n'] + jr);
        assert(jn[0] == l0[0]);
        assert(jn.last() == jr.last());
        assert(rest.last() == ls.last());
        assert forall|i: int|
            0 <= i && i + 3 <= jn.len() implies !(#[trigger] jn[i] == '-' && jn[i + 1] == '-'
            && jn[i + 2] == '-') by {
            if i + 3 <= n0 {
                assert(!(l0[i] == '-' && l0[i + 1] == '-' && l0[i + 2] == '-'));
            } else if i <= n0 && n0 <= i + 2 {
                assert(jn[n0] == '\n');
            } else {
                assert(jn[i] == jr[i - n0 - 1]);
                assert(jn[i + 1] == jr[i - n0]);
                assert(jn[i + 2] == jr[i - n0 + 1]);
                assert(!(jr[i - n0 - 1] == '-' && jr[i - n0] == '-' && jr[i - n0 + 1] == '-'));
            }
        }
    }
}

/// `cat_lines` of one line is the line plus a newline.
proof fn lemma_cat_singleton(l: Seq<char>)
    ensures
        text::cat_lines(seq![l]) == l + seq!['\n'],
{
    let s = seq![l];
    assert(s.drop_first() =~= Seq::<Seq<char>>::empty());
    assert(text::cat_lines(s.drop_first()) == Seq::<char>::empty());
    assert(text::cat_lines(s) =~= l + seq!['\n']);
}

/// The flat header text is the newline-terminated concatenation of the
/// header lines.
proof fn lemma_flat_cat(
    n: Seq<char>,
    d: Option<Seq<char>>,
    t: Option<Seq<char>>,
    m: Seq<char>,
    c: Option<Seq<char>>,
)
    ensures
        flat_header(n, d, t, m, c) == text::cat_lines(header::enc_lines(n, d, t, m, c)),
{
    lemma_literals();
    let l1 = seq![header::field_line("name: "@, n)];
    let l2 = match d {
        Option::None => Seq::<Seq<char>>::empty(),
        Option::Some(v) => seq![header::field_line("description: "@, v)],
    };
    let l3 = match t {
        Option::None => Seq::<Seq<char>>::empty(),
        Option::Some(v) => seq![header::field_line("tools: "@, v)],
    };
    let l4 = seq![header::field_line("model: "@, m)];
    let l5 = match c {
        Option::None => Seq::<Seq<char>>::empty(),
        Option::Some(v) => seq![header::field_line("color: "@, v)],
    };
    assert(header::enc_lines(n, d, t, m, c) == l1 + l2 + l3 + l4 + l5);
    text::lemma_cat_append(l1 + l2 + l3 + l4, l5);
    text::lemma_cat_append(l1 + l2 + l3, l4);
    text::lemma_cat_append(l1 + l2, l3);
    text::lemma_cat_append(l1, l2);
    lemma_cat_singleton(header::field_line("name: "@, n));
    assert(text::cat_lines(l1) =~= ("name: "@ + n) + seq!['\n']);
    lemma_cat_singleton(header::field_line("model: "@, m));
    assert(text::cat_lines(l4) =~= ("model: "@ + m) + seq!['\n']);
    assert(text::cat_lines(l2) =~= opt_line("description: "@, d)) by {
        match d {
            Option::None => {},
            Option::Some(v) => {
                lemma_cat_singleton(header::field_line("description: "@, v));
            },
        }
    }
    assert(text::cat_lines(l3) =~= opt_line("tools: "@, t)) by {
        match t {
            Option::None => {},
            Option::Some(v) => {
                lemma_cat_singleton(header::field_line("tools: "@, v));
            },
        }
    }
    assert(text::cat_lines(l5) =~= opt_line("color: "@, c)) by {
        match c {
            Option::None => {},
            Option::Some(v) => {
                lemma_cat_singleton(header::field_line("color: "@, v));
            },
        }
    }
    assert(flat_header(n, d, t, m, c) =~= text::cat_lines(l1) + text::cat_lines(l2)
        + text::cat_lines(l3) + text::cat_lines(l4) + text::cat_lines(l5));
}

/// The repair pre-pass keeps any line that neither starts nor ends in
/// whitespace and does not begin with the repaired key's first letter.
proof fn lemma_repair_other(l: Seq<char>)
    requires
        l.len() > 0,
        !text::is_space(l[0]),
        !text::is_space(l.last()),
        l[0] != 'd',
    ensures
        repair_line(l) == l,
{
    lemma_literals();
    text::lemma_trim_id(l);
    if text::match_at(l, 0, dkey()) {
        assert(l.subrange(0, 12)[0] == 'd');
    }
}

/// The repair pre-pass turns a description line with a quotable value into
/// exactly the form [`header::desc_line`] names: quoted where the value
/// needs it, untouched otherwise.
proof fn lemma_repair_desc(v: Seq<char>)
    requires
        header::desc_value(v),
    ensures
        repair_line(header::field_line("description: "@, v)) == header::desc_line(v),
{
    lemma_literals();
    let key = "description: "@;
    let l = header::field_line(key, v);
    assert(header::quotable_char(v[0]));
    assert(header::quotable_char(v.last()));
    assert(l.last() == v.last());
    text::lemma_trim_id(l);
    assert(text::match_at(l, 0, dkey())) by {
        assert(l.subrange(0, 12) =~= dkey());
    }
    text::lemma_find_from_is_first(l, 0, dkey(), 0);
    let sub = l.subrange(12, l.len() as int);
    assert(sub =~= seq![' '] + v);
    assert(!text::is_space(sub[1]));
    text::lemma_trim_start_idx(sub, 1);
    assert(text::trim_start_spec(sub) =~= v);
    text::lemma_trim_end_idx(v, v.len() as int);
    assert(v.subrange(0, v.len() as int) =~= v);
    assert(text::trim_spec(sub) == v);
    assert(v[0] != '"' && v[0] != '\'');
    if header::needs_quote(v) {
        assert(text::trim_start_spec(l) == l) by {
            text::lemma_trim_start_idx(l, 0);
            assert(l.subrange(0, l.len() as int) =~= l);
        }
        assert(spaces(l.len() - text::trim_start_spec(l).len()) =~= Seq::<char>::empty());
        assert(repair_line(l) =~= header::desc_line(v));
    }
}

} // verus!

verus! {

/// Facts about every written header line: each is nonempty, free of
/// newlines, carriage returns and triple dashes, starts with its key's first
/// letter, ends in a nonspace character — and the repair pre-pass maps the
/// written lines exactly to the lines the parser sees.
proof fn lemma_lines_good(
    n: Seq<char>,
    d: Option<Seq<char>>,
    t: Option<Seq<char>>,
    m: Seq<char>,
    c: Option<Seq<char>>,
)
    requires
        header::simple_header(n, d, t, m, c),
    ensures
        ({
            let ls = header::enc_lines(n, d, t, m, c);
            let qs = header::lines_seq(n, d, t, m, c);
            &&& 2 <= ls.len() <= 5
            &&& qs.len() == ls.len()
            &&& ls[0] == header::field_line("name: "@, n)
            &&& ls.last() == (match c {
                Option::None => header::field_line("model: "@, m),
                Option::Some(v) => header::field_line("color: "@, v),
            })
            &&& forall|k: int| 0 <= k < ls.len() ==> (#[trigger] ls[k]).len() > 0
            &&& forall|k: int| 0 <= k < ls.len() ==> text::no_nl(#[trigger] ls[k])
            &&& forall|k: int| 0 <= k < ls.len() ==> (#[trigger] ls[k]).last() != '\r'
            &&& forall|k: int| 0 <= k < ls.len() ==> !text::is_space((#[trigger] ls[k]).last())
            &&& forall|k: int| 0 <= k < ls.len() ==> !text::is_space((#[trigger] ls[k])[0])
            &&& forall|k: int| 0 <= k < ls.len() ==> (#[trigger] ls[k])[0] != '-'
            &&& forall|k: int| 0 <= k < ls.len() ==> header::no_triple_dash(#[trigger] ls[k])
            &&& forall|k: int| 0 <= k < ls.len() ==> repair_line(#[trigger] ls[k]) == qs[k]
        }),
{
    lemma_literals();
    let ls = header::enc_lines(n, d, t, m, c);
    let qs = header::lines_seq(n, d, t, m, c);
    let keyn = "name: "@;
    let keyd = "description: "@;
    let keyt = "tools: "@;
    let keym = "model: "@;
    let keyc = "color: "@;
    lemma_plain_is_desc(n);
    lemma_plain_is_desc(m);
    lemma_line_good(keyn, n);
    lemma_line_good(keym, m);
    lemma_repair_other(header::field_line(keyn, n));
    lemma_repair_other(header::field_line(keym, m));
    if let Option::Some(v) = d {
        lemma_line_good(keyd, v);
        lemma_repair_desc(v);
    }
    if let Option::Some(v) = t {
        lemma_plain_is_desc(v);
        lemma_line_good(keyt, v);
        lemma_repair_other(header::field_line(keyt, v));
    }
    if let Option::Some(v) = c {
        lemma_plain_is_desc(v);
        lemma_line_good(keyc, v);
        lemma_repair_other(header::field_line(keyc, v));
    }
    assert forall|k: int| 0 <= k < ls.len() implies (#[trigger] ls[k]).len() > 0 && text::no_nl(
        ls[k],
    ) && ls[k].last() != '\r' && !text::is_space(ls[k].last()) && !text::is_space(ls[k][0])
        && ls[k][0] != '-' && header::no_triple_dash(ls[k]) && repair_line(ls[k]) == qs[k] by {
        assert((ls[k] == header::field_line(keyn, n) && qs[k] == header::field_line(keyn, n)) || (
        d is Some && ls[k] == header::field_line(keyd, d->Some_0) && qs[k] == header::desc_line(
            d->Some_0,
        )) || (t is Some && ls[k] == header::field_line(keyt, t->Some_0) && qs[k]
            == header::field_line(keyt, t->Some_0)) || (ls[k] == header::field_line(keym, m)
            && qs[k] == header::field_line(keym, m)) || (c is Some && ls[k] == header::field_line(
            keyc,
            c->Some_0,
        ) && qs[k] == header::field_line(keyc, c->Some_0)));
    }
}

/// Where a document is the canonical encoding of plain fields and a trimmed
/// nonempty body, splitting it yields exactly three segments: an empty
/// preamble, the header block, and the body.
#[verifier::rlimit(80)]
proof fn lemma_canonical_split(
    n: Seq<char>,
    d: Option<Seq<char>>,
    t: Option<Seq<char>>,
    m: Seq<char>,
    c: Option<Seq<char>>,
    p: Seq<char>,
)
    requires
        header::simple_header(n, d, t, m, c),
        p.len() > 0,
        text::trim_spec(p) == p,
    ensures
        ({
            let s = encode_fields(n, d, t, m, c, p);
            let parts = split3(s);
            &&& parts.len() == 3
            &&& preprocess_spec(text::trim_spec(parts[1])) == header::header_block(n, d, t, m, c)
            &&& text::trim_spec(parts[2]) == p
        }),
{
    lemma_literals();
    let s = encode_fields(n, d, t, m, c, p);
    let ls = header::enc_lines(n, d, t, m, c);
    let qs = header::lines_seq(n, d, t, m, c);
    let fh = flat_header(n, d, t, m, c);
    let jn = text::join_lines(ls);
    lemma_lines_good(n, d, t, m, c);
    lemma_flat_cat(n, d, t, m, c);
    text::lemma_cat_join(ls);
    lemma_no3_join(ls);
    let mid = seq!['\n'] + jn + seq!['\n'];
    let tail = seq!['\n', '\n'] + p;
    assert(s =~= delim() + mid + delim() + tail);
    let q = 3 + mid.len() as int;
    // first delimiter at position zero
    assert(text::match_at(s, 0, delim())) by {
        assert(s.subrange(0, 3) =~= delim());
    }
    text::lemma_find_from_is_first(s, 0, delim(), 0);
    // no triple dash inside the middle segment
    assert forall|i: int|
        0 <= i && i + 3 <= mid.len() implies !(#[trigger] mid[i] == '-' && mid[i + 1] == '-'
        && mid[i + 2] == '-') by {
        if i == 0 {
            assert(mid[0] == '\n');
        } else if i + 3 == mid.len() as int {
            assert(mid[i + 2] == '\n');
        } else if i + 2 == mid.len() as int - 1 {
            assert(mid[i + 2] == jn[i + 1]);
            assert(mid[mid.len() - 1] == '\n');
        } else {
            assert(mid[i] == jn[i - 1]);
            assert(mid[i + 1] == jn[i]);
            assert(mid[i + 2] == jn[i + 1]);
            assert(!(jn[i - 1] == '-' && jn[i] == '-' && jn[i + 1] == '-'));
        }
    }
    // second delimiter right after the middle segment, and nowhere earlier
    assert(text::match_at(s, q, delim())) by {
        assert(s.subrange(q, q + 3) =~= delim());
    }
    assert forall|j: int| 3 <= j < q implies !text::match_at(s, j, delim()) by {
        if text::match_at(s, j, delim()) {
            assert(s.subrange(j, j + 3) == delim());
            assert(s[j] == s.subrange(j, j + 3)[0]);
            assert(s[j + 1] == s.subrange(j, j + 3)[1]);
            assert(s[j + 2] == s.subrange(j, j + 3)[2]);
            if j + 2 < q {
                assert(mid[j - 3] == s[j] && mid[j - 2] == s[j + 1] && mid[j - 1] == s[j + 2]);
            } else {
                assert(s[q - 1] == mid[mid.len() - 1]);
                assert(mid[mid.len() - 1] == '\n');
            }
        }
    }
    text::lemma_find_from_is_first(s, 3, delim(), q);
    let parts = split3(s);
    assert(parts.len() == 3);
    assert(parts[1] =~= mid);
    assert(parts[2] =~= tail);
    // the middle segment trims to the joined header lines
    assert(!text::is_space(mid[1])) by {
        assert(jn[0] == ls[0][0]);
    }
    text::lemma_trim_start_idx(mid, 1);
    assert(text::trim_start_spec(mid) =~= jn + seq!['\n']);
    let je = jn + seq!['\n'];
    assert(!text::is_space(je[jn.len() - 1])) by {
        assert(jn.last() == ls.last().last());
        assert(je[jn.len() - 1] == jn.last());
    }
    text::lemma_trim_end_idx(je, jn.len() as int);
    assert(je.subrange(0, jn.len() as int) =~= jn);
    assert(text::trim_spec(mid) == jn);
    // the repair pre-pass maps the written lines to the lines the parser sees
    text::lemma_lines_join(ls);
    assert(repair_all(ls) =~= qs);
    assert(preprocess_spec(jn) == text::join_lines(qs));
    // the tail trims to the body
    text::lemma_trim_id_inv(p);
    assert(!text::is_space(tail[2]));
    text::lemma_trim_start_idx(tail, 2);
    assert(text::trim_start_spec(tail) =~= p);
    assert(text::trim_end_spec(p) == p) by {
        assert(!text::is_space(p[0]));
        assert(text::trim_start_spec(p) == p);
    }
    assert(text::trim_spec(tail) == p);
}

} // verus!

verus! {

proof fn lemma_slug_core_keep(s: Seq<char>)
    ensures
        forall|i: int| 0 <= i < slug_core(s).len() ==> slug_keep(#[trigger] slug_core(s)[i]),
    decreases s.len(),
{
    if s.len() > 0 {
        lemma_slug_core_keep(s.drop_last());
        let pre = slug_core(s.drop_last());
        assert forall|i: int| 0 <= i < slug_core(s).len() implies slug_keep(
            #[trigger] slug_core(s)[i],
        ) by {
            if i < pre.len() {
                assert(slug_core(s)[i] == pre[i]);
            }
        }
    }
}

/// Slug safety: deriving a filename never fails, and the result never holds
/// a space, an underscore, or an uppercase ASCII letter — for any name.
pub proof fn lemma_slug_safe(name: Seq<char>)
    ensures
        forall|i: int|
            0 <= i < slug_spec(name).len() ==> #[trigger] slug_spec(name)[i] != ' ' && slug_spec(
                name,
            )[i] != '_' && !('A' <= slug_spec(name)[i] && slug_spec(name)[i] <= 'Z'),
{
    reveal_strlit(".md");
    assert(".md"@ =~= seq!['.', 'm', 'd']);
    lemma_slug_core_keep(name);
    let r = slug_spec(name);
    assert forall|i: int|
        0 <= i < r.len() implies #[trigger] r[i] != ' ' && r[i] != '_' && !('A' <= r[i] && r[i]
        <= 'Z') by {
        if i < slug_core(name).len() {
            assert(slug_keep(slug_core(name)[i]));
        } else {
            assert(r[i] == seq!['.', 'm', 'd'][i - slug_core(name).len()]);
        }
    }
}

/// Uppercasing the first letter is idempotent: normalizing an
/// already-normalized color changes nothing.
pub proof fn lemma_normalize_idempotent(c: Seq<char>)
    ensures
        upper_first(upper_first(c)) == upper_first(c),
{
    if c.len() > 0 {
        let u = to_upper_ascii(c[0]);
        assert(!('a' <= u && u <= 'z'));
        assert(upper_first(upper_first(c)) =~= upper_first(c));
    }
}

/// A color whose first character is not a lowercase ASCII letter is already
/// normalized: normalization returns it unchanged.
pub proof fn lemma_normalize_normalized(c: Seq<char>)
    requires
        c.len() > 0 ==> !('a' <= c[0] && c[0] <= 'z'),
    ensures
        upper_first(c) == c,
{
    if c.len() > 0 {
        assert(upper_first(c) =~= c);
    }
}

} // verus!

verus! {

impl Agent {
    /// Assembles a definition from request fields, with the creation
    /// defaults: model `sonnet`, file read and write enabled, network
    /// disabled, and the caller's timestamps.
    pub fn from_request(
        name: String,
        icon: String,
        system_prompt: String,
        default_task: Option<String>,
        model: Option<String>,
        enable_file_read: Option<bool>,
        enable_file_write: Option<bool>,
        enable_network: Option<bool>,
        hooks: Option<String>,
        description: Option<String>,
        tools: Option<String>,
        color: Option<String>,
        created_at: String,
        updated_at: String,
    ) -> (r: Agent)
        ensures
            r.id is None,
            r.name == name,
            r.icon == icon,
            r.system_prompt == system_prompt,
            r.default_task == default_task,
            r.model@ == (match model {
                Option::Some(m) => m@,
                Option::None => "sonnet"@,
            }),
            r.enable_file_read == (match enable_file_read {
                Option::Some(b) => b,
                Option::None => true,
            }),
            r.enable_file_write == (match enable_file_write {
                Option::Some(b) => b,
                Option::None => true,
            }),
            r.enable_network == (match enable_network {
                Option::Some(b) => b,
                Option::None => false,
            }),
            r.hooks == hooks,
            r.created_at == created_at,
            r.updated_at == updated_at,
            r.description == description,
            r.tools == tools,
            r.color == color,
    {
        Agent {
            id: Option::None,
            name,
            icon,
            system_prompt,
            default_task,
            model: match model {
                Option::Some(m) => m,
                Option::None => String::from_str("sonnet"),
            },
            enable_file_read: match enable_file_read {
                Option::Some(b) => b,
                Option::None => true,
            },
            enable_file_write: match enable_file_write {
                Option::Some(b) => b,
                Option::None => true,
            },
            enable_network: match enable_network {
                Option::Some(b) => b,
                Option::None => false,
            },
            hooks,
            created_at,
            updated_at,
            description,
            tools,
            color,
        }
    }
}

} // verus!
