use appshell::config::{
    parse_config, render_config, snapshot_config, window_setup, AppConfig, WindowAttributes,
};
use appshell::{INITIAL_HEIGHT, INITIAL_WIDTH};

fn sample_config() -> AppConfig {
    AppConfig {
        window_attributes: WindowAttributes { pos_x: 120, pos_y: -45, width: 800, height: 600 },
        memory: b"ui memory snapshot\nwith two lines".to_vec(),
    }
}

#[test]
fn render_exact_document() {
    let doc = render_config(&sample_config());
    let expected: Vec<u8> = b"pos_x: +0000000120\n\
pos_y: -0000000045\n\
width: 0000000800\n\
height: 0000000600\n\
memory:\nui memory snapshot\nwith two lines"
        .to_vec();
    assert_eq!(doc, expected);
}

#[test]
fn round_trip_reproduces_geometry_and_memory() {
    let original = sample_config();
    let doc = render_config(&original);
    let back = parse_config(&doc).expect("rendered document must parse");
    assert_eq!(back.window_attributes, original.window_attributes);
    assert_eq!(back.memory, original.memory);
}

#[test]
fn round_trip_extreme_values() {
    let original = AppConfig {
        window_attributes: WindowAttributes {
            pos_x: i32::MIN,
            pos_y: i32::MAX,
            width: u32::MAX,
            height: 0,
        },
        memory: Vec::new(),
    };
    let doc = render_config(&original);
    let back = parse_config(&doc).expect("rendered document must parse");
    assert_eq!(back.window_attributes, original.window_attributes);
    assert_eq!(back.memory, original.memory);
}

#[test]
fn truncated_document_is_absent() {
    let doc = render_config(&sample_config());
    assert!(parse_config(&doc[..40]).is_none());
    assert!(parse_config(&[]).is_none());
}

#[test]
fn garbage_document_is_absent() {
    let garbage: Vec<u8> = (0..200u32).map(|i| (i * 7 % 251) as u8).collect();
    assert!(parse_config(&garbage).is_none());
}

#[test]
fn garbled_field_is_absent() {
    let mut doc = render_config(&sample_config());
    doc[9] = b'x'; // a digit of pos_x
    assert!(parse_config(&doc).is_none());
}

#[test]
fn out_of_range_field_is_absent() {
    let mut doc = render_config(&sample_config());
    // width 9999999999 does not fit a u32
    for b in doc[45..55].iter_mut() {
        *b = b'9';
    }
    assert!(parse_config(&doc).is_none());
}

#[test]
fn negative_zero_position_is_absent() {
    let mut doc = render_config(&sample_config());
    doc[7] = b'-'; // sign of pos_x
    for b in doc[8..18].iter_mut() {
        *b = b'0';
    }
    assert!(parse_config(&doc).is_none());
}

#[test]
fn absent_config_opens_at_default_size() {
    let setup = window_setup(&None);
    assert!(!setup.has_position);
    assert_eq!(setup.width, INITIAL_WIDTH);
    assert_eq!(setup.height, INITIAL_HEIGHT);
    assert_eq!(setup.width, 1920);
    assert_eq!(setup.height, 1080);
}

#[test]
fn loaded_config_opens_at_saved_geometry() {
    let setup = window_setup(&Some(sample_config()));
    assert!(setup.has_position);
    assert_eq!(setup.pos_x, 120);
    assert_eq!(setup.pos_y, -45);
    assert_eq!(setup.width, 800);
    assert_eq!(setup.height, 600);
}

#[test]
fn snapshot_uses_origin_when_position_unknown() {
    let c = snapshot_config(None, 640, 480, b"m".to_vec());
    assert_eq!(c.window_attributes.pos_x, 0);
    assert_eq!(c.window_attributes.pos_y, 0);
    assert_eq!(c.window_attributes.width, 640);
    assert_eq!(c.window_attributes.height, 480);
    assert_eq!(c.memory, b"m".to_vec());
}
