use chobits::server::config::{
    BindAddr, Config, HostAddr, ListeningAddr, ListeningPort, LlmModel, Model, OneOrMany, TtsConfig,
    TtsModel, default_address, default_asr_path, default_audio_input_channel,
    default_audio_input_frame_duration, default_audio_input_sample_rate,
    default_audio_output_channel, default_audio_output_frame_duration,
    default_audio_output_sample_rate, default_auth_access_token_expires_in,
    default_auth_access_token_secret, default_auth_audience, default_auth_client_id,
    default_auth_client_secret, default_auth_issuer, default_auth_refresh_token_expires_in,
    default_auth_refresh_token_secret, default_database_url, default_llm_model, default_llm_path,
    default_matrix_client_name, default_matrix_client_password, default_matrix_client_username,
    default_matrix_enable, default_matrix_homeserver, default_mcp_uri_list, default_port,
    default_server_name, default_session_close_connection_no_voice_time,
    default_session_max_prompt_len, default_session_silence_voice_timeout,
    default_session_system_prompt, default_tts_model, default_tts_path,
    default_tts_reference_prompt_text, default_tts_reference_prompt_wav_path, default_vad_num_threads,
    default_vad_path, default_ws_schema,
};

fn config_listening(address: ListeningAddr, port: ListeningPort) -> Config {
    Config {
        server_name: default_server_name(),
        address,
        port,
        database_url: default_database_url(),
        auth_access_token_secret: default_auth_access_token_secret(),
        auth_access_token_expires_in: default_auth_access_token_expires_in(),
        auth_refresh_token_secret: default_auth_refresh_token_secret(),
        auth_refresh_token_expires_in: default_auth_refresh_token_expires_in(),
        auth_audience: default_auth_audience(),
        auth_issuer: default_auth_issuer(),
        auth_client_id: default_auth_client_id(),
        auth_client_secret: default_auth_client_secret(),
        ws_schema: default_ws_schema(),
        vad_path: default_vad_path(),
        vad_num_threads: default_vad_num_threads(),
        tts_model: default_tts_model(),
        tts_path: default_tts_path(),
        tts_reference_prompt_text: default_tts_reference_prompt_text(),
        tts_reference_prompt_wav_path: default_tts_reference_prompt_wav_path(),
        asr_path: default_asr_path(),
        llm_model: default_llm_model(),
        llm_path: default_llm_path(),
        audio_input_sample_rate: default_audio_input_sample_rate(),
        audio_input_frame_duration: default_audio_input_frame_duration(),
        audio_input_channel: default_audio_input_channel(),
        audio_output_sample_rate: default_audio_output_sample_rate(),
        audio_output_channel: default_audio_output_channel(),
        audio_output_frame_duration: default_audio_output_frame_duration(),
        session_close_connection_no_voice_time: default_session_close_connection_no_voice_time(),
        session_silence_voice_timeout: default_session_silence_voice_timeout(),
        session_system_prompt: default_session_system_prompt(),
        session_max_prompt_len: default_session_max_prompt_len(),
        mcp_uri_list: default_mcp_uri_list(),
        matrix_enable: default_matrix_enable(),
        matrix_client_name: default_matrix_client_name(),
        matrix_homeserver: default_matrix_homeserver(),
        matrix_client_username: default_matrix_client_username(),
        matrix_client_password: default_matrix_client_password(),
    }
}

const LOCALHOST_V4: HostAddr = HostAddr::V4([127, 0, 0, 1]);
const LOCALHOST_V6: HostAddr = HostAddr::V6([0, 0, 0, 0, 0, 0, 0, 1]);

#[test]
fn default_config_listens_on_localhost_port_3000() {
    let config = config_listening(default_address(), default_port());
    assert_eq!(
        config.get_bind_addrs(),
        vec![BindAddr { host: LOCALHOST_V4, port: 3000 }]
    );
}

#[test]
fn bind_addrs_pair_every_host_with_every_port_host_by_host() {
    let config = config_listening(
        ListeningAddr { addrs: OneOrMany::Many(vec![LOCALHOST_V4, LOCALHOST_V6]) },
        ListeningPort { ports: OneOrMany::Many(vec![80, 443, 8080]) },
    );
    assert_eq!(
        config.get_bind_addrs(),
        vec![
            BindAddr { host: LOCALHOST_V4, port: 80 },
            BindAddr { host: LOCALHOST_V4, port: 443 },
            BindAddr { host: LOCALHOST_V4, port: 8080 },
            BindAddr { host: LOCALHOST_V6, port: 80 },
            BindAddr { host: LOCALHOST_V6, port: 443 },
            BindAddr { host: LOCALHOST_V6, port: 8080 },
        ]
    );
}

#[test]
fn no_ports_means_no_bind_addrs() {
    let config = config_listening(
        ListeningAddr { addrs: OneOrMany::One(LOCALHOST_V6) },
        ListeningPort { ports: OneOrMany::Many(Vec::new()) },
    );
    assert!(config.get_bind_addrs().is_empty());
}

#[test]
fn scalar_defaults_match_the_documented_values() {
    assert_eq!(default_server_name(), "localhost.localdomain");
    assert_eq!(default_database_url().as_deref(), Some("sqlite://db.sqlite?mode=rwc"));
    assert_eq!(default_auth_access_token_expires_in(), Some(28800));
    assert_eq!(default_auth_refresh_token_expires_in(), Some(15897600));
    assert_eq!(default_tts_model(), Some(TtsModel::Voxcpm));
    assert_eq!(default_llm_model(), Some(LlmModel::Qwen3));
    assert_eq!(default_audio_input_sample_rate(), Some(16000));
    assert_eq!(default_audio_input_frame_duration(), Some(60));
    assert_eq!(default_audio_output_channel(), Some(1));
    assert_eq!(default_session_close_connection_no_voice_time(), Some(30000));
    assert_eq!(default_session_silence_voice_timeout(), Some(1200));
    assert_eq!(default_session_max_prompt_len(), Some(3000));
    assert_eq!(default_vad_num_threads(), Some(4));
    assert_eq!(default_matrix_enable(), Some(false));
    assert_eq!(default_matrix_client_password(), None);
    assert_eq!(
        default_mcp_uri_list(),
        Some(vec!["http://127.0.0.1:3000/mcp".to_string()])
    );
}

#[test]
fn tts_config_defaults_to_voxcpm_with_its_reference_voice() {
    let tts = TtsConfig::new();
    assert_eq!(tts.model(), Model::Voxcpm);
    assert_eq!(tts.path(), "data/tts/model/openbmb/VoxCPM-0.5B/");
    assert_eq!(tts.reference_prompt_wav_path(), "file://data/tts/reference/voice_05.wav");
    assert_eq!(tts.reference_prompt_text(), "一定被灰太狼给吃了，我已经为他准备好了花圈了");
}

#[test]
fn an_empty_tts_config_reads_as_empty_settings() {
    let tts = TtsConfig::default();
    assert_eq!(tts.model(), Model::Kokoro);
    assert_eq!(tts.path(), "");
    assert_eq!(tts.reference_prompt_text(), "");
}
