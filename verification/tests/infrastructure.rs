use kensho::config::{KenshoConfig, SystemConfig};
use kensho::infrastructure::audio::{spawn, Speaker};
use kensho::infrastructure::llm::{
    build_engine, notice, Engine, LlamaEngine, LlmError, MockEngine,
};
use kensho::infrastructure::os_signals::{shown, Notifier};
use kensho::services::conversation::{ChatMessage, Role};

fn config() -> SystemConfig {
    SystemConfig::resolve("/d".to_string(), KenshoConfig::default())
}

// -- engines -------------------------------------------------------------------

#[test]
fn the_simulated_engine_echoes_the_last_request() {
    let engine = MockEngine::new();
    assert_eq!(engine.model_id(), "mock-qwen");
    assert_eq!(engine.token_delay_ms(), 35);
    let messages = vec![
        ChatMessage::new(Role::System, "s".to_string()),
        ChatMessage::new(Role::User, "antes".to_string()),
        ChatMessage::new(Role::User, "  que  horas são? ".to_string()),
        ChatMessage::new(Role::Assistant, "a".to_string()),
    ];
    let tokens = engine.generate(&messages);
    let text = "Entendi seu pedido: \"que  horas são?\". Este é o motor simulado do Kensho — \
                compile com --features llama e aponte KENSHO_MODEL_PATH para um arquivo .gguf do \
                Qwen para respostas reais.";
    assert_eq!(tokens.concat(), text);
    let expected: Vec<&str> = text.split_inclusive(' ').collect();
    assert_eq!(tokens, expected);
    assert_eq!(tokens[0], "Entendi ");
    assert_eq!(tokens[4], " ");
}

#[test]
fn without_a_request_the_echo_is_empty() {
    let tokens = MockEngine::default().generate(&[]);
    assert!(tokens.concat().starts_with("Entendi seu pedido: \"\". Este"));
}

#[test]
fn the_gguf_engine_needs_its_file() {
    let missing = LlamaEngine::load(&config(), false);
    match missing {
        Err(e) => {
            assert!(matches!(e, LlmError::NotLoaded(_)));
            assert_eq!(
                e.message(),
                "model not loaded: gguf model not found at /d/models/qwen.gguf"
            );
        }
        Ok(_) => panic!("the file is missing"),
    }
    let engine = LlamaEngine::load(&config(), true).unwrap();
    assert_eq!(engine.model_id(), "/d/models/qwen.gguf");
    assert_eq!(
        engine.generate("a \"b\"\n"),
        "[llama backend ready] model=/d/models/qwen.gguf max_tokens=512 prompt=\"a \\\"b\\\"\\n\" \
         — wire the llama-cpp-2 decode loop in infrastructure/llm/llama.rs"
    );
    assert_eq!(
        notice("m", 0, "\"p\""),
        "[llama backend ready] model=m max_tokens=0 prompt=\"p\" \
         — wire the llama-cpp-2 decode loop in infrastructure/llm/llama.rs"
    );
    assert_eq!(LlmError::Inference("x".to_string()).message(), "inference failed: x");
}

#[test]
fn the_best_engine_is_chosen() {
    assert!(matches!(build_engine(&config(), true, true), Engine::Llama(_)));
    assert!(matches!(build_engine(&config(), true, false), Engine::Mock(_)));
    assert!(matches!(build_engine(&config(), false, true), Engine::Mock(_)));
    assert!(matches!(build_engine(&config(), false, false), Engine::Mock(_)));
}

// -- voice ---------------------------------------------------------------------

#[test]
fn a_disabled_speaker_is_silent() {
    assert!(Speaker::disabled().speak("Oi.".to_string()).is_none());
    assert!(Speaker::default().speak("Oi.".to_string()).is_none());
    assert!(spawn(&config()).speak("Oi.".to_string()).is_none());
    let mut blank = config();
    blank.piper_model = "  ".to_string();
    assert!(spawn(&blank).speak("Oi.".to_string()).is_none());
}

#[test]
fn a_voice_goes_through_piper() {
    let mut cfg = config();
    cfg.piper_model = "/v/pt.onnx".to_string();
    let play = spawn(&cfg).speak("Oi.".to_string()).unwrap();
    assert_eq!(play.sentence, "Oi.");
    assert_eq!(
        play.pipeline,
        "\"piper\" --model \"/v/pt.onnx\" --output-raw | aplay -q -r 22050 -f S16_LE -c 1 -t raw -"
    );
}

// -- notifications -------------------------------------------------------------

#[test]
fn a_notification_is_of_its_application() {
    let n = Notifier::default().notify("Resumo", "Corpo");
    assert_eq!(n.app_name, "Kensho");
    assert_eq!(n.summary, "Resumo");
    assert_eq!(n.body, "Corpo");
    assert_eq!(n.timeout_ms, 6000);
    assert_eq!(Notifier::new("Outro".to_string()).notify("", "").app_name, "Outro");
}

#[test]
fn a_daemon_that_fails_is_an_error() {
    assert!(shown(Ok(())).is_ok());
    let failed = shown(Err("no bus".to_string())).unwrap_err();
    assert_eq!(failed.message(), "notification error: no bus");
}
