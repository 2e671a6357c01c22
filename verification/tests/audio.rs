use obayebar::audio::{default_sink_update, sink_added, sink_from_props, sink_removed, SinkInfo};

fn sink(id: u32, name: &str) -> SinkInfo {
    SinkInfo { id, serial: format!("{id}"), name: name.to_string(), description: name.to_uppercase() }
}

#[test]
fn an_announced_sink_goes_last_and_replaces_its_id() {
    let mut sinks = vec![sink(1, "a"), sink(2, "b")];
    sink_added(&mut sinks, sink(3, "c"));
    assert_eq!(sinks.iter().map(|s| s.id).collect::<Vec<_>>(), vec![1, 2, 3]);
    sink_added(&mut sinks, sink(1, "a2"));
    assert_eq!(sinks.iter().map(|s| s.name.as_str()).collect::<Vec<_>>(), vec!["b", "c", "a2"]);
}

#[test]
fn a_removed_global_takes_its_sink_and_names_it() {
    let mut sinks = vec![sink(1, "a"), sink(2, "b"), sink(3, "c")];
    assert_eq!(sink_removed(&mut sinks, 2), Some("b".to_string()));
    assert_eq!(sinks.iter().map(|s| s.id).collect::<Vec<_>>(), vec![1, 3]);
    assert_eq!(sink_removed(&mut sinks, 9), None);
    assert_eq!(sinks.len(), 2);
}

#[test]
fn only_audio_sink_nodes_are_sinks() {
    assert_eq!(sink_from_props(4, Some("Audio/Source"), None, Some("mic"), None), None);
    assert_eq!(sink_from_props(4, None, None, Some("x"), None), None);
    assert_eq!(
        sink_from_props(5, Some("Audio/Sink"), Some("42"), Some("alsa_output"), Some("Speakers")),
        Some(SinkInfo {
            id: 5,
            serial: "42".to_string(),
            name: "alsa_output".to_string(),
            description: "Speakers".to_string()
        })
    );
    assert_eq!(
        sink_from_props(6, Some("Audio/Sink"), None, None, None),
        Some(SinkInfo { id: 6, serial: String::new(), name: "unknown".to_string(), description: "unknown".to_string() })
    );
    assert_eq!(sink_from_props(7, Some("Audio/Sink"), None, Some("hdmi"), None).map(|s| s.description), Some("hdmi".to_string()));
}

#[test]
fn the_default_sink_comes_from_its_metadata_json() {
    assert_eq!(
        default_sink_update(Some("default.audio.sink"), Some(r#"{"name":"alsa_output.pci"}"#)),
        Some(Some("alsa_output.pci".to_string()))
    );
    assert_eq!(default_sink_update(Some("default.audio.sink"), None), Some(None));
    assert_eq!(default_sink_update(Some("default.audio.sink"), Some("not json")), Some(None));
    assert_eq!(default_sink_update(Some("default.audio.sink"), Some(r#"{"name": 3}"#)), Some(None));
    assert_eq!(default_sink_update(Some("default.audio.source"), Some(r#"{"name":"mic"}"#)), None);
    assert_eq!(default_sink_update(None, Some(r#"{"name":"x"}"#)), None);
}
