use claudio_core::codec::{Agent, AgentParser, DecodeError};

fn sample_agent() -> Agent {
    Agent {
        id: None,
        name: String::from("Test Agent"),
        icon: String::from("robot"),
        system_prompt: String::from("You are a careful helper."),
        default_task: None,
        model: String::from("sonnet"),
        enable_file_read: true,
        enable_file_write: true,
        enable_network: false,
        hooks: None,
        created_at: String::from("2024-01-01T00:00:00Z"),
        updated_at: String::from("2024-01-01T00:00:00Z"),
        description: Some(String::from("Checks code carefully")),
        tools: Some(String::from("Read, Grep")),
        color: Some(String::from("Blue")),
    }
}

#[test]
fn encode_exact_document() {
    let agent = sample_agent();
    let doc = AgentParser::generate_markdown(&agent);
    assert_eq!(
        doc,
        "---\nname: Test Agent\ndescription: Checks code carefully\ntools: Read, Grep\nmodel: sonnet\ncolor: Blue\n---\n\nYou are a careful helper."
    );
}

#[test]
fn encode_skips_absent_fields() {
    let mut agent = sample_agent();
    agent.description = None;
    agent.tools = None;
    agent.color = None;
    let doc = AgentParser::generate_markdown(&agent);
    assert_eq!(doc, "---\nname: Test Agent\nmodel: sonnet\n---\n\nYou are a careful helper.");
}

#[test]
fn round_trip_all_fields() {
    let agent = sample_agent();
    let doc = AgentParser::generate_markdown(&agent);
    let back = AgentParser::parse_file(&doc).expect("canonical document must decode");
    assert_eq!(back.name, agent.name);
    assert_eq!(back.description, agent.description);
    assert_eq!(back.tools, agent.tools);
    assert_eq!(back.model, agent.model);
    assert_eq!(back.color, agent.color);
    assert_eq!(back.system_prompt, agent.system_prompt);
}

#[test]
fn round_trip_minimal_fields() {
    let mut agent = sample_agent();
    agent.description = None;
    agent.tools = None;
    agent.color = None;
    let doc = AgentParser::generate_markdown(&agent);
    let back = AgentParser::parse_file(&doc).expect("canonical document must decode");
    assert_eq!(back.name, agent.name);
    assert_eq!(back.description, None);
    assert_eq!(back.tools, None);
    assert_eq!(back.color, None);
    assert_eq!(back.model, agent.model);
    assert_eq!(back.system_prompt, agent.system_prompt);
}

#[test]
fn decode_fills_defaults() {
    let doc = "---\nname: Minimal\n---\nDo the work.";
    let agent = AgentParser::parse_file(doc).expect("document must decode");
    assert_eq!(agent.name, "Minimal");
    assert_eq!(agent.model, "inherit");
    assert_eq!(agent.description, None);
    assert_eq!(agent.tools, None);
    assert_eq!(agent.color, None);
    assert!(agent.enable_file_read);
    assert!(agent.enable_file_write);
    assert!(!agent.enable_network);
    assert_eq!(agent.id, None);
    assert_eq!(agent.icon, "\u{1F916}");
    assert_eq!(agent.created_at, agent.updated_at);
    assert_eq!(agent.system_prompt, "Do the work.");
}

#[test]
fn decode_normalizes_color() {
    let doc = "---\nname: Tinted\ncolor: red\n---\nBody text.";
    let agent = AgentParser::parse_file(doc).expect("document must decode");
    assert_eq!(agent.color.as_deref(), Some("Red"));
}

#[test]
fn decode_keeps_normalized_color() {
    let doc = "---\nname: Tinted\ncolor: Red\n---\nBody text.";
    let agent = AgentParser::parse_file(doc).expect("document must decode");
    assert_eq!(agent.color.as_deref(), Some("Red"));
}

#[test]
fn description_repair_unquoted_special() {
    let doc = "---\nname: Fixer\ndescription: a < b\n---\nBody text.";
    let agent = AgentParser::parse_file(doc).expect("repaired document must decode");
    assert_eq!(agent.description.as_deref(), Some("a < b"));
}

#[test]
fn preprocess_quotes_only_description() {
    let fixed = AgentParser::preprocess_yaml("name: X\ndescription: a < b\nmodel: sonnet");
    assert_eq!(fixed, "name: X\ndescription: \"a < b\"\nmodel: sonnet");
}

#[test]
fn preprocess_keeps_quoted_description() {
    let header = "name: X\ndescription: \"a < b\"";
    assert_eq!(AgentParser::preprocess_yaml(header), header);
}

#[test]
fn missing_header_single_delimiter() {
    let r = AgentParser::parse_file("---\nname: Lost");
    assert!(matches!(r, Err(DecodeError::MissingHeader)));
}

#[test]
fn missing_header_no_delimiter() {
    let r = AgentParser::parse_file("just some text");
    assert!(matches!(r, Err(DecodeError::MissingHeader)));
}

#[test]
fn empty_body_whitespace_only() {
    let r = AgentParser::parse_file("---\nname: Quiet\n---\n   \n\t\n");
    assert!(matches!(r, Err(DecodeError::EmptyBody)));
}

#[test]
fn invalid_header_bad_yaml() {
    let r = AgentParser::parse_file("---\nname: [unclosed\n---\nBody text.");
    match r {
        Err(DecodeError::InvalidHeader(msg)) => {
            assert!(msg.starts_with("Failed to parse YAML frontmatter: "));
        },
        other => panic!("expected InvalidHeader, got {:?}", other.is_ok()),
    }
}

#[test]
fn invalid_header_missing_name() {
    let r = AgentParser::parse_file("---\nmodel: sonnet\n---\nBody text.");
    assert!(matches!(r, Err(DecodeError::InvalidHeader(_))));
}

#[test]
fn error_messages() {
    assert_eq!(
        DecodeError::MissingHeader.message(),
        "Invalid agent file format: missing YAML frontmatter"
    );
    assert_eq!(
        DecodeError::EmptyBody.message(),
        "Agent file must contain a system prompt after the frontmatter"
    );
    assert_eq!(DecodeError::InvalidHeader(String::from("cause")).message(), "cause");
}

#[test]
fn slug_basic() {
    assert_eq!(AgentParser::name_to_filename("Test Agent"), "test-agent.md");
}

#[test]
fn slug_underscores_and_punctuation() {
    assert_eq!(AgentParser::name_to_filename("My_Agent! v2.0"), "my-agent-v20.md");
}

#[test]
fn slug_keeps_letters_whose_lowercase_is_ascii() {
    assert_eq!(AgentParser::name_to_filename("\u{212A}elvin"), "kelvin.md");
    assert_eq!(AgentParser::name_to_filename("\u{0130}stanbul"), "istanbul.md");
}

#[test]
fn slug_total_on_degenerate_names() {
    assert_eq!(AgentParser::name_to_filename(""), ".md");
    assert_eq!(AgentParser::name_to_filename("!!!"), ".md");
}

#[test]
fn slug_never_space_underscore_uppercase() {
    for name in ["A B_C", "UPPER lower", "__  __", "Mixed 123 Case"] {
        let slug = AgentParser::name_to_filename(name);
        assert!(!slug.contains(' '), "slug {slug:?} holds a space");
        assert!(!slug.contains('_'), "slug {slug:?} holds an underscore");
        assert!(!slug.chars().any(|c| c.is_ascii_uppercase()), "slug {slug:?} holds an uppercase");
    }
}

#[test]
fn normalize_color_is_idempotent() {
    let once = AgentParser::normalize_color("teal");
    let twice = AgentParser::normalize_color(&once);
    assert_eq!(once, "Teal");
    assert_eq!(twice, once);
}

#[test]
fn normalize_color_empty() {
    assert_eq!(AgentParser::normalize_color(""), "");
}

#[test]
fn system_prompt_keeps_inner_delimiters() {
    let doc = "---\nname: Divider\n---\nfirst\n---\nsecond";
    let agent = AgentParser::parse_file(doc).expect("document must decode");
    assert_eq!(agent.system_prompt, "first\n---\nsecond");
}

#[test]
fn from_request_defaults() {
    let a = Agent::from_request(
        String::from("New One"),
        String::from("robot"),
        String::from("Prompt."),
        None,
        None,
        None,
        None,
        None,
        None,
        None,
        None,
        None,
        String::from("2024-01-01T00:00:00Z"),
        String::from("2024-01-02T00:00:00Z"),
    );
    assert_eq!(a.model, "sonnet");
    assert!(a.enable_file_read);
    assert!(a.enable_file_write);
    assert!(!a.enable_network);
    assert_eq!(a.id, None);
    assert_eq!(a.created_at, "2024-01-01T00:00:00Z");
    assert_eq!(a.updated_at, "2024-01-02T00:00:00Z");
}

#[test]
fn icon_header_field_is_not_kept() {
    let doc = "---\nname: Pictured\nicon: star\n---\nBody text.";
    let agent = AgentParser::parse_file(doc).expect("document must decode");
    assert_eq!(agent.icon, "\u{1F916}");
    let re = AgentParser::generate_markdown(&agent);
    assert!(!re.contains("icon"));
}

#[test]
fn round_trip_description_with_special_characters() {
    let mut agent = sample_agent();
    agent.description = Some(String::from("maps {x: 1} to <y>"));
    let doc = AgentParser::generate_markdown(&agent);
    assert!(doc.contains("description: maps {x: 1} to <y>\n"));
    let back = AgentParser::parse_file(&doc).expect("repaired document must decode");
    assert_eq!(back.description, agent.description);
    assert_eq!(back.name, agent.name);
    assert_eq!(back.system_prompt, agent.system_prompt);
}
