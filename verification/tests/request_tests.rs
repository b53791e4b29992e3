use screen_ai_reader::client::AiClient;
use screen_ai_reader::decode::StreamFormat;
use screen_ai_reader::event::ErrorKind;
use screen_ai_reader::provider::ModelProvider;
use screen_ai_reader::request::ConversationTurn;
use screen_ai_reader::request::Role;
use screen_ai_reader::request::build_request;

fn turn(role: Role, text: &str, image: Option<Vec<u8>>) -> ConversationTurn {
    ConversationTurn { role, text: String::from(text), image }
}

fn body_text(body: &[u8]) -> String {
    String::from_utf8(body.to_vec()).expect("request bodies are UTF-8")
}

// The bytes of "Man", whose standard padded base64 is the known vector "TWFu".
const SAMPLE_IMAGE: [u8; 3] = [77, 97, 110];

#[test]
fn local_body_is_exactly_the_generate_payload() {
    let provider = ModelProvider::LocalEndpoint {
        url: String::from("http://localhost:11434"),
        model: String::from("llava"),
    };
    let turns = vec![turn(Role::User, "hi", Some(SAMPLE_IMAGE.to_vec()))];
    let wire = build_request(&provider, &turns).expect("local needs no credential");
    assert_eq!(wire.url, "http://localhost:11434/api/generate");
    assert_eq!(wire.format, StreamFormat::Ndjson);
    assert_eq!(
        body_text(&wire.body),
        "{\"model\":\"llava\",\"prompt\":\"hi\",\"images\":[\"TWFu\"],\"stream\":true,\
         \"options\":{\"num_predict\":4096}}"
    );
}

#[test]
fn local_body_without_image_has_an_empty_images_array() {
    let provider = ModelProvider::LocalEndpoint {
        url: String::from("http://h"),
        model: String::from("m"),
    };
    let turns = vec![turn(Role::User, "p", None)];
    let wire = build_request(&provider, &turns).unwrap();
    assert_eq!(
        body_text(&wire.body),
        "{\"model\":\"m\",\"prompt\":\"p\",\"images\":[],\"stream\":true,\"options\":{\"num_predict\":4096}}"
    );
}

#[test]
fn openai_image_goes_only_to_the_last_user_turn() {
    let provider = ModelProvider::OpenAiCompatible {
        base_url: String::from("https://api.openai.com"),
        api_key: String::from("sk-test"),
        model: String::from("gpt-4o"),
    };
    let turns = vec![
        turn(Role::User, "a", None),
        turn(Role::Assistant, "b", None),
        turn(Role::User, "c", Some(SAMPLE_IMAGE.to_vec())),
    ];
    let wire = build_request(&provider, &turns).unwrap();
    assert_eq!(wire.url, "https://api.openai.com/v1/chat/completions");
    assert_eq!(wire.format, StreamFormat::OpenAiSse);
    assert_eq!(
        body_text(&wire.body),
        "{\"model\":\"gpt-4o\",\"messages\":[\
         {\"role\":\"user\",\"content\":\"a\"},\
         {\"role\":\"assistant\",\"content\":\"b\"},\
         {\"role\":\"user\",\"content\":[{\"type\":\"text\",\"text\":\"c\"},\
         {\"type\":\"image_url\",\"image_url\":{\"url\":\"data:image/png;base64,TWFu\"}}]}\
         ],\"stream\":true,\"max_tokens\":4096}"
    );
    let text = body_text(&wire.body);
    assert_eq!(text.matches("TWFu").count(), 1);
    assert!(!text.split("\"role\":\"user\",\"content\":\"a\"").next().unwrap().contains("TWFu"));
}

#[test]
fn image_attaches_to_the_most_recent_user_turn_that_carries_one() {
    let provider = ModelProvider::OpenAiCompatible {
        base_url: String::from("https://api.groq.com/openai"),
        api_key: String::from("k"),
        model: String::from("m"),
    };
    let turns = vec![
        turn(Role::User, "with image", Some(SAMPLE_IMAGE.to_vec())),
        turn(Role::Assistant, "noted", None),
        turn(Role::User, "follow-up", None),
    ];
    let wire = build_request(&provider, &turns).unwrap();
    let text = body_text(&wire.body);
    assert_eq!(text.matches("TWFu").count(), 1);
    assert!(text.contains(
        "{\"role\":\"user\",\"content\":[{\"type\":\"text\",\"text\":\"with image\"}"
    ));
    assert!(text.contains("{\"role\":\"user\",\"content\":\"follow-up\"}"));
}

#[test]
fn anthropic_body_places_the_image_before_the_text() {
    let provider = ModelProvider::Anthropic {
        api_key: String::from("key"),
        model: String::from("sonnet-latest"),
    };
    let turns = vec![turn(Role::User, "hej", Some(SAMPLE_IMAGE.to_vec()))];
    let wire = build_request(&provider, &turns).unwrap();
    assert_eq!(wire.url, "https://api.anthropic.com/v1/messages");
    assert_eq!(wire.format, StreamFormat::AnthropicSse);
    assert_eq!(
        body_text(&wire.body),
        "{\"model\":\"sonnet-latest\",\"max_tokens\":4096,\"messages\":[\
         {\"role\":\"user\",\"content\":[\
         {\"type\":\"image\",\"source\":{\"type\":\"base64\",\"media_type\":\"image/png\",\"data\":\"TWFu\"}},\
         {\"type\":\"text\",\"text\":\"hej\"}]}\
         ],\"stream\":true}"
    );
}

#[test]
fn json_strings_are_escaped() {
    let provider = ModelProvider::LocalEndpoint {
        url: String::from("http://h"),
        model: String::from("m"),
    };
    let turns = vec![turn(Role::User, "a\"b\\c\nd\te\r", None)];
    let wire = build_request(&provider, &turns).unwrap();
    assert_eq!(
        body_text(&wire.body),
        "{\"model\":\"m\",\"prompt\":\"a\\\"b\\\\c\\nd\\te\\r\",\"images\":[],\"stream\":true,\"options\":{\"num_predict\":4096}}"
    );
}

#[test]
fn control_bytes_are_escaped_as_unicode() {
    let provider = ModelProvider::LocalEndpoint {
        url: String::from("http://h"),
        model: String::from("m"),
    };
    let turns = vec![turn(Role::User, "a\u{1}b", None)];
    let wire = build_request(&provider, &turns).unwrap();
    let text = body_text(&wire.body);
    assert!(text.contains("\"a\\u0001b\""));
}

#[test]
fn empty_api_key_fails_with_configuration_error() {
    let provider = ModelProvider::OpenAiCompatible {
        base_url: String::from("https://api.openai.com"),
        api_key: String::new(),
        model: String::from("gpt-4o"),
    };
    let turns = vec![turn(Role::User, "p", None)];
    let err = build_request(&provider, &turns).unwrap_err();
    assert_eq!(err.kind, ErrorKind::ConfigurationError);
    assert_eq!(err.message, "missing API key");
}

#[test]
fn whitespace_api_key_fails_with_configuration_error() {
    let provider = ModelProvider::Anthropic {
        api_key: String::from(" \t\n"),
        model: String::from("m"),
    };
    let turns = vec![turn(Role::User, "p", None)];
    let err = build_request(&provider, &turns).unwrap_err();
    assert_eq!(err.kind, ErrorKind::ConfigurationError);
}

#[test]
fn local_endpoint_needs_no_credential() {
    let provider = ModelProvider::LocalEndpoint {
        url: String::from("http://h"),
        model: String::from("m"),
    };
    let turns = vec![turn(Role::User, "p", None)];
    assert!(build_request(&provider, &turns).is_ok());
}

#[test]
fn headers_per_provider() {
    let turns = vec![turn(Role::User, "p", None)];
    let local = ModelProvider::LocalEndpoint {
        url: String::from("http://h"),
        model: String::from("m"),
    };
    let wire = build_request(&local, &turns).unwrap();
    assert_eq!(
        wire.headers,
        vec![(String::from("content-type"), String::from("application/json"))]
    );
    let hosted = ModelProvider::OpenAiCompatible {
        base_url: String::from("https://api.x.ai"),
        api_key: String::from("xk"),
        model: String::from("grok"),
    };
    let wire = build_request(&hosted, &turns).unwrap();
    assert_eq!(wire.url, "https://api.x.ai/v1/chat/completions");
    assert_eq!(wire.headers[0], (String::from("authorization"), String::from("Bearer xk")));
    let anthropic = ModelProvider::Anthropic {
        api_key: String::from("ak"),
        model: String::from("m"),
    };
    let wire = build_request(&anthropic, &turns).unwrap();
    assert_eq!(wire.headers[0], (String::from("x-api-key"), String::from("ak")));
    assert_eq!(
        wire.headers[1],
        (String::from("anthropic-version"), String::from("2023-06-01"))
    );
}

#[test]
fn prepare_analysis_appends_the_prompt_as_a_user_turn() {
    let client = AiClient::new(ModelProvider::LocalEndpoint {
        url: String::from("http://h"),
        model: String::from("m"),
    });
    let history = vec![turn(Role::User, "earlier", None), turn(Role::Assistant, "reply", None)];
    let (wire, session) = match client
        .prepare_analysis(Some(SAMPLE_IMAGE.to_vec()), String::from("now"), &history)
    {
        Ok(prepared) => prepared,
        Err(e) => panic!("unexpected error {:?}", e),
    };
    assert_eq!(
        body_text(&wire.body),
        "{\"model\":\"m\",\"prompt\":\"now\",\"images\":[\"TWFu\"],\"stream\":true,\"options\":{\"num_predict\":4096}}"
    );
    assert_eq!(session.state(), screen_ai_reader::session::SessionState::Sending);
}

#[test]
fn prepare_analysis_rejects_a_blank_credential_before_any_network_work() {
    let client = AiClient::new(ModelProvider::OpenAiCompatible {
        base_url: String::from("https://api.openai.com"),
        api_key: String::from("   "),
        model: String::from("gpt-4o"),
    });
    let err = match client.prepare_analysis(None, String::from("p"), &vec![]) {
        Ok(_) => panic!("a blank credential must be rejected"),
        Err(e) => e,
    };
    assert_eq!(err.kind, ErrorKind::ConfigurationError);
}

#[test]
fn set_provider_affects_subsequent_calls() {
    let mut client = AiClient::new(ModelProvider::default());
    let wire = match client.prepare_analysis(None, String::from("p"), &vec![]) {
        Ok(prepared) => prepared.0,
        Err(e) => panic!("unexpected error {:?}", e),
    };
    assert_eq!(wire.url, "http://localhost:11434/api/generate");
    client.set_provider(ModelProvider::Anthropic {
        api_key: String::from("k"),
        model: String::from("m"),
    });
    let wire = match client.prepare_analysis(None, String::from("p"), &vec![]) {
        Ok(prepared) => prepared.0,
        Err(e) => panic!("unexpected error {:?}", e),
    };
    assert_eq!(wire.url, "https://api.anthropic.com/v1/messages");
}
