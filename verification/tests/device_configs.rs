use soundcheck::device::select_output_config;
use soundcheck::device::OutputConfig;

#[test]
fn picks_the_config_with_most_channels_supporting_the_rate() {
    let configs = vec![
        OutputConfig { max_sample_rate: 44100, channels: 2 },
        OutputConfig { max_sample_rate: 48000, channels: 8 },
        OutputConfig { max_sample_rate: 96000, channels: 6 },
    ];
    assert_eq!(select_output_config(&configs, 48000, 2), Some(1));
}

#[test]
fn keeps_the_default_when_no_config_supports_the_rate() {
    let configs = vec![
        OutputConfig { max_sample_rate: 44100, channels: 8 },
        OutputConfig { max_sample_rate: 22050, channels: 16 },
    ];
    assert_eq!(select_output_config(&configs, 48000, 2), None);
}

#[test]
fn keeps_the_default_when_it_has_the_most_channels() {
    let configs = vec![OutputConfig { max_sample_rate: 96000, channels: 2 }];
    assert_eq!(select_output_config(&configs, 48000, 4), None);
}

#[test]
fn the_first_config_attaining_the_maximum_wins() {
    let configs = vec![
        OutputConfig { max_sample_rate: 48000, channels: 8 },
        OutputConfig { max_sample_rate: 96000, channels: 8 },
    ];
    assert_eq!(select_output_config(&configs, 48000, 2), Some(0));
}
