use soundcheck::chain::Resolution;
use soundcheck::model::Preset;
use soundcheck::model::Space;
use url::Url;

fn s(x: &str) -> String {
    x.to_string()
}

#[test]
fn request_paths_follow_the_chain() {
    let st = Resolution::new();
    assert_eq!(st.request_path().as_deref(), Some("spaces"));
    let st = st.on_spaces(&vec![Space { active_preset_id: s("preset-7") }]);
    assert_eq!(st.request_path().as_deref(), Some("presets/preset-7"));
    let st = st.on_preset(Preset { beam_group_ids: vec![], name: s("P") });
    assert_eq!(st.request_path().as_deref(), Some("beam-groups"));
    let st = st.on_beam_groups(&vec![]);
    assert_eq!(st.request_path().as_deref(), Some("beam-instances"));
    let st = st.on_beam_instances(&vec![]);
    assert_eq!(st.request_path().as_deref(), Some("beam-audio-inputs"));
    let st = st.on_beam_audio_inputs(&vec![]);
    assert_eq!(st.request_path().as_deref(), Some("audio-inputs"));
    let st = st.on_audio_inputs(&vec![]);
    assert_eq!(st.request_path().as_deref(), Some("audio-input-stream-mappings"));
    let st = st.on_stream_mappings(&vec![]);
    assert_eq!(st.request_path(), None);
}

#[test]
fn request_paths_join_a_base_url_with_trailing_slash() {
    let base = Url::parse("http://nebula.local/api/v1/").unwrap();
    let st = Resolution::new();
    let endpoint = base.join(&st.request_path().unwrap()).unwrap();
    assert_eq!(endpoint.as_str(), "http://nebula.local/api/v1/spaces");
    let st = st.on_spaces(&vec![Space { active_preset_id: s("p1") }]);
    let endpoint = base.join(&st.request_path().unwrap()).unwrap();
    assert_eq!(endpoint.as_str(), "http://nebula.local/api/v1/presets/p1");
}
