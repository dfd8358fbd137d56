use qmassa::sink::{sink_init_bytes, sink_patch, JsonSink};

fn parse_array(bytes: &[u8]) -> Vec<serde_json::Value> {
    let v: serde_json::Value = serde_json::from_slice(bytes).expect("sink file must be valid JSON");
    v.as_array().expect("sink file must be one array").clone()
}

fn element(n: u64) -> Vec<u8> {
    serde_json::to_vec(&serde_json::Value::from(n)).expect("serializing a number")
}

#[test]
fn fresh_sink_is_an_empty_array() {
    let sink = JsonSink::new();
    assert_eq!(parse_array(sink.bytes()).len(), 0);
    assert_eq!(sink.bytes(), &sink_init_bytes());
}

#[test]
fn sink_holds_one_element_after_first_tick() {
    let mut sink = JsonSink::new();
    sink.append(&element(17));
    let arr = parse_array(sink.bytes());
    assert_eq!(arr.len(), 1);
    assert_eq!(arr[0], serde_json::Value::from(17u64));
}

#[test]
fn sink_holds_n_elements_in_tick_order() {
    let mut sink = JsonSink::new();
    for n in 0..5u64 {
        sink.append(&element(n));
    }
    let arr = parse_array(sink.bytes());
    assert_eq!(arr.len(), 5);
    for (i, v) in arr.iter().enumerate() {
        assert_eq!(*v, serde_json::Value::from(i as u64));
    }
}

#[test]
fn sink_is_valid_after_every_single_append() {
    // An abrupt stop can land between any two appends: the file image is
    // a complete array at every step.
    let mut sink = JsonSink::new();
    for n in 0..10u64 {
        sink.append(&element(n));
        let arr = parse_array(sink.bytes());
        assert_eq!(arr.len(), (n + 1) as usize);
    }
}

#[test]
fn patch_rewrites_tail_exactly_as_the_image_does() {
    // Applying the on-disk protocol by hand (truncate the two closing
    // bytes, write the patch) matches the maintained image byte for byte.
    let mut file = sink_init_bytes();
    let mut sink = JsonSink::new();
    for (i, n) in [3u64, 1, 4].iter().enumerate() {
        let elem = element(*n);
        let patch = sink_patch(i == 0, &elem);
        file.truncate(file.len() - 2);
        file.extend_from_slice(&patch);
        sink.append(&elem);
        assert_eq!(&file, sink.bytes());
        parse_array(&file);
    }
}

#[test]
fn sink_keeps_structured_elements_intact() {
    let mut sink = JsonSink::new();
    let mut map = serde_json::Map::new();
    map.insert(String::from("ticks"), serde_json::Value::from(1u64));
    let obj = serde_json::Value::Object(map);
    sink.append(&serde_json::to_vec(&obj).expect("serializing an object"));
    let arr = parse_array(sink.bytes());
    assert_eq!(arr[0], obj);
}
