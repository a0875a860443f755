use soundcheck::model::AudioInput;
use soundcheck::model::AudioInputStreamMapping;
use soundcheck::model::BeamAudioInput;
use soundcheck::model::BeamGroup;
use soundcheck::model::BeamInstance;
use soundcheck::resolver::audio_inputs_of_associations;
use soundcheck::resolver::beam_ids_of_instances;
use soundcheck::resolver::beam_instances_of_groups;
use soundcheck::resolver::channel_map_of_mappings;
use soundcheck::resolver::filter_audio_inputs;

fn s(x: &str) -> String {
    x.to_string()
}

#[test]
fn groups_filter_unions_selected_instance_lists() {
    let selected = vec![s("g1"), s("g3")];
    let groups = vec![
        BeamGroup { id: s("g1"), beam_instance_ids: vec![s("i1"), s("i2")] },
        BeamGroup { id: s("g2"), beam_instance_ids: vec![s("i3")] },
        BeamGroup { id: s("g3"), beam_instance_ids: vec![s("i4")] },
    ];
    let out = beam_instances_of_groups(&selected, &groups);
    assert_eq!(out, vec![s("i1"), s("i2"), s("i4")]);
}

#[test]
fn instances_filter_collects_beam_ids() {
    let selected = vec![s("i1"), s("i3")];
    let instances = vec![
        BeamInstance { beam_id: s("b1"), id: s("i1") },
        BeamInstance { beam_id: s("b2"), id: s("i2") },
        BeamInstance { beam_id: s("b3"), id: s("i3") },
    ];
    let out = beam_ids_of_instances(&selected, &instances);
    assert_eq!(out, vec![s("b1"), s("b3")]);
}

#[test]
fn association_filter_deduplicates_audio_inputs() {
    let selected = vec![s("i1"), s("i2")];
    let assocs = vec![
        BeamAudioInput { beam_instance_id: s("i1"), audio_input_id: s("a1") },
        BeamAudioInput { beam_instance_id: s("i2"), audio_input_id: s("a1") },
        BeamAudioInput { beam_instance_id: s("i9"), audio_input_id: s("a2") },
        BeamAudioInput { beam_instance_id: s("i2"), audio_input_id: s("a3") },
    ];
    let out = audio_inputs_of_associations(&selected, &assocs);
    assert_eq!(out, vec![s("a1"), s("a3")]);
}

#[test]
fn input_filter_keeps_selected_records() {
    let selected = vec![s("a2")];
    let inputs = vec![
        AudioInput { id: s("a1"), name: s("One") },
        AudioInput { id: s("a2"), name: s("Two") },
    ];
    let kept = filter_audio_inputs(&selected, &inputs);
    assert_eq!(kept.len(), 1);
    assert_eq!(kept[0].id, "a2");
    assert_eq!(kept[0].name, "Two");
}

#[test]
fn later_record_with_duplicate_id_names_the_channel() {
    // With two audio-input records under one id, the lookup keeps the
    // later record, as an id-keyed map filled by insertion would.
    let kept = vec![
        AudioInput { id: s("a1"), name: s("Stale name") },
        AudioInput { id: s("a1"), name: s("Current name") },
    ];
    let mappings = vec![AudioInputStreamMapping { audio_input_id: s("a1"), channel: 4 }];
    let map = channel_map_of_mappings(&kept, &mappings);
    assert_eq!(map.get(4).map(|l| l.as_str()), Some("Current name"));
}

#[test]
fn mapping_stage_builds_channel_to_name_map() {
    let kept = vec![
        AudioInput { id: s("a1"), name: s("One") },
        AudioInput { id: s("a2"), name: s("Two") },
    ];
    let mappings = vec![
        AudioInputStreamMapping { audio_input_id: s("a2"), channel: 0 },
        AudioInputStreamMapping { audio_input_id: s("a7"), channel: 5 },
        AudioInputStreamMapping { audio_input_id: s("a1"), channel: 2 },
    ];
    let map = channel_map_of_mappings(&kept, &mappings);
    assert_eq!(map.get(0).map(|l| l.as_str()), Some("Two"));
    assert_eq!(map.get(2).map(|l| l.as_str()), Some("One"));
    // The mapping of an input that survived no filter stage contributes
    // no channel: resolution never invents channels.
    assert!(map.get(5).is_none());
    assert!(map.get(1).is_none());
}
