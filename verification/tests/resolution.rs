use soundcheck::chain::Resolution;
use soundcheck::model::AudioInput;
use soundcheck::model::AudioInputStreamMapping;
use soundcheck::model::BeamAudioInput;
use soundcheck::model::BeamGroup;
use soundcheck::model::BeamInstance;
use soundcheck::model::Preset;
use soundcheck::model::ResolveError;
use soundcheck::model::Space;
use soundcheck::model::Stage;

fn s(x: &str) -> String {
    x.to_string()
}

#[test]
fn full_chain_resolves_two_receivers() {
    let st = Resolution::new();
    assert_eq!(st.pending(), Some(Stage::Spaces));

    let spaces = vec![Space { active_preset_id: s("p1") }];
    let st = st.on_spaces(&spaces);
    assert_eq!(st.pending(), Some(Stage::Preset));

    let preset = Preset { beam_group_ids: vec![s("g1"), s("g2")], name: s("Main hall") };
    let st = st.on_preset(preset);
    assert_eq!(st.pending(), Some(Stage::BeamGroups));

    let groups = vec![
        BeamGroup { id: s("g1"), beam_instance_ids: vec![s("i1")] },
        BeamGroup { id: s("g3"), beam_instance_ids: vec![s("i9")] },
        BeamGroup { id: s("g2"), beam_instance_ids: vec![s("i2")] },
    ];
    let st = st.on_beam_groups(&groups);
    assert_eq!(st.pending(), Some(Stage::BeamInstances));

    let instances = vec![
        BeamInstance { beam_id: s("b1"), id: s("i1") },
        BeamInstance { beam_id: s("b2"), id: s("i2") },
        BeamInstance { beam_id: s("b9"), id: s("i9") },
    ];
    let st = st.on_beam_instances(&instances);
    assert_eq!(st.pending(), Some(Stage::BeamAudioInputs));

    let assocs = vec![
        BeamAudioInput { beam_instance_id: s("i2"), audio_input_id: s("a2") },
        BeamAudioInput { beam_instance_id: s("i9"), audio_input_id: s("a9") },
        BeamAudioInput { beam_instance_id: s("i1"), audio_input_id: s("a1") },
        BeamAudioInput { beam_instance_id: s("i1"), audio_input_id: s("a1") },
    ];
    let st = st.on_beam_audio_inputs(&assocs);
    assert_eq!(st.pending(), Some(Stage::AudioInputs));

    let inputs = vec![
        AudioInput { id: s("a1"), name: s("Left receiver") },
        AudioInput { id: s("a2"), name: s("Right receiver") },
        AudioInput { id: s("a9"), name: s("Unselected receiver") },
    ];
    let st = st.on_audio_inputs(&inputs);
    assert_eq!(st.pending(), Some(Stage::StreamMappings));

    let mappings = vec![
        AudioInputStreamMapping { audio_input_id: s("a2"), channel: 3 },
        AudioInputStreamMapping { audio_input_id: s("a9"), channel: 0 },
        AudioInputStreamMapping { audio_input_id: s("a1"), channel: 1 },
    ];
    let st = st.on_stream_mappings(&mappings);
    assert_eq!(st.pending(), None);

    let map = st.outcome().expect("chain should resolve");
    assert_eq!(map.get(1).map(|l| l.as_str()), Some("Left receiver"));
    assert_eq!(map.get(3).map(|l| l.as_str()), Some("Right receiver"));
    // The unselected receiver's mapping (channel 0) must not appear, and
    // resolution invents no channels beyond the mapped ones.
    assert!(map.get(0).is_none());
    assert!(map.get(2).is_none());
    assert!(map.get(4).is_none());
}

#[test]
fn empty_active_preset_fails_fast() {
    let st = Resolution::new();
    let spaces = vec![Space { active_preset_id: s("") }];
    let st = st.on_spaces(&spaces);
    // No beam-group, beam-instance or audio-input fetch is requested.
    assert_eq!(st.pending(), None);
    assert!(st.request_path().is_none());
    let err = st.outcome().expect_err("empty preset must fail");
    assert_eq!(err, ResolveError::NoActivePreset);
    assert_eq!(err.message(), "active preset is empty");
}

#[test]
fn fetch_failure_aborts_without_partial_map() {
    let st = Resolution::new();
    let spaces = vec![Space { active_preset_id: s("p1") }];
    let st = st.on_spaces(&spaces);
    let st = st.on_preset(Preset { beam_group_ids: vec![s("g1")], name: s("Main") });
    // The beam-groups fetch fails: the run concludes at once.
    let st = st.on_fetch_failed();
    assert_eq!(st.pending(), None);
    assert!(st.request_path().is_none());
    let err = st.outcome().expect_err("failed fetch must fail the run");
    assert_eq!(err, ResolveError::FetchFailed(Stage::BeamGroups));
    assert_eq!(err.message(), "failed to fetch beam-groups");
}

#[test]
fn spaces_fetch_failure_reports_spaces_stage() {
    let st = Resolution::new();
    let st = st.on_fetch_failed();
    let err = st.outcome().expect_err("failed fetch must fail the run");
    assert_eq!(err, ResolveError::FetchFailed(Stage::Spaces));
}

#[test]
fn resolved_map_has_no_channel_without_mapping() {
    // A kept input with no stream mapping is simply absent.
    let st = Resolution::new();
    let spaces = vec![Space { active_preset_id: s("p") }];
    let st = st.on_spaces(&spaces);
    let st = st.on_preset(Preset { beam_group_ids: vec![s("g")], name: s("P") });
    let groups = vec![BeamGroup { id: s("g"), beam_instance_ids: vec![s("i")] }];
    let st = st.on_beam_groups(&groups);
    let instances = vec![BeamInstance { beam_id: s("b"), id: s("i") }];
    let st = st.on_beam_instances(&instances);
    let assocs = vec![BeamAudioInput { beam_instance_id: s("i"), audio_input_id: s("a") }];
    let st = st.on_beam_audio_inputs(&assocs);
    let inputs = vec![AudioInput { id: s("a"), name: s("Lonely receiver") }];
    let st = st.on_audio_inputs(&inputs);
    let mappings: Vec<AudioInputStreamMapping> = Vec::new();
    let st = st.on_stream_mappings(&mappings);
    let map = st.outcome().expect("chain should resolve");
    for c in 0..8u16 {
        assert!(map.get(c).is_none());
    }
}

#[test]
fn later_mapping_of_same_channel_wins() {
    let st = Resolution::new();
    let spaces = vec![Space { active_preset_id: s("p") }];
    let st = st.on_spaces(&spaces);
    let st = st.on_preset(Preset { beam_group_ids: vec![s("g")], name: s("P") });
    let groups = vec![BeamGroup { id: s("g"), beam_instance_ids: vec![s("i1"), s("i2")] }];
    let st = st.on_beam_groups(&groups);
    let instances = vec![
        BeamInstance { beam_id: s("b1"), id: s("i1") },
        BeamInstance { beam_id: s("b2"), id: s("i2") },
    ];
    let st = st.on_beam_instances(&instances);
    let assocs = vec![
        BeamAudioInput { beam_instance_id: s("i1"), audio_input_id: s("a1") },
        BeamAudioInput { beam_instance_id: s("i2"), audio_input_id: s("a2") },
    ];
    let st = st.on_beam_audio_inputs(&assocs);
    let inputs = vec![
        AudioInput { id: s("a1"), name: s("First") },
        AudioInput { id: s("a2"), name: s("Second") },
    ];
    let st = st.on_audio_inputs(&inputs);
    let mappings = vec![
        AudioInputStreamMapping { audio_input_id: s("a1"), channel: 2 },
        AudioInputStreamMapping { audio_input_id: s("a2"), channel: 2 },
    ];
    let st = st.on_stream_mappings(&mappings);
    let map = st.outcome().expect("chain should resolve");
    assert_eq!(map.get(2).map(|l| l.as_str()), Some("Second"));
}
