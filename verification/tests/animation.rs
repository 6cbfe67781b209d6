use rustic_app::animation::{AtlasError, ElementKind};
use rustic_app::animation_build::{
    is_button_symbol_type, is_movie_clip_symbol_type, normalize_loop_mode,
    normalize_symbol_first_frame, normalize_symbol_loop_mode, RawAnimationFile,
    RawAtlasInstance, RawElement, RawFrame, RawLayer, RawSymbol, RawSymbolInstance, RawTimeline,
    RawVerboseFile,
};
use rustic_app::animation::Animation;

fn s(v: &str) -> String {
    v.to_string()
}

fn si(name: &str, first_frame: u32, symbol_type: Option<&str>, loop_mode: Option<&str>, transform: usize) -> RawElement {
    RawElement {
        symbol_instance: Some(RawSymbolInstance {
            symbol_name: s(name),
            first_frame,
            symbol_type: symbol_type.map(s),
            loop_mode: loop_mode.map(s),
            transform,
        }),
        atlas_instance: None,
    }
}

fn asi(name: &str, transform: usize) -> RawElement {
    RawElement {
        symbol_instance: None,
        atlas_instance: Some(RawAtlasInstance {
            frame_name: s(name),
            transform,
        }),
    }
}

fn frame(name: Option<&str>, index: u32, duration: u32, elements: Vec<RawElement>) -> RawFrame {
    RawFrame {
        name: name.map(s),
        index,
        duration,
        elements,
    }
}

fn layer(name: Option<&str>, frames: Vec<RawFrame>) -> RawLayer {
    RawLayer {
        name: name.map(s),
        frames,
    }
}

fn timeline(layers: Vec<RawLayer>) -> RawTimeline {
    RawTimeline { layers }
}

fn symbol(name: &str, layers: Option<Vec<RawLayer>>) -> RawSymbol {
    RawSymbol {
        name: s(name),
        timeline: layers.map(timeline),
    }
}

fn compact(
    name: Option<&str>,
    symbol_name: Option<&str>,
    layers: Vec<RawLayer>,
    sd: Option<Vec<RawSymbol>>,
    top_sd: Option<Vec<RawSymbol>>,
) -> RawAnimationFile {
    RawAnimationFile {
        name: name.map(s),
        symbol_name: symbol_name.map(s),
        timeline: timeline(layers),
        symbol_dictionary: sd,
        top_level_symbol_dictionary: top_sd,
        stage_instance: None,
    }
}

fn bf_animation() -> RawAnimationFile {
    compact(
        Some("BoyFriend Assets_TA-Export"),
        Some("BF ALL ANIMS"),
        vec![layer(
            Some("Labels"),
            vec![
                frame(Some("Idle"), 0, 14, vec![]),
                frame(Some("Left"), 14, 8, vec![]),
                frame(None, 22, 2, vec![]),
            ],
        )],
        Some(vec![
            symbol(
                "BF idle dance",
                Some(vec![layer(
                    Some("Layer 1"),
                    vec![frame(
                        None,
                        0,
                        2,
                        vec![si("BF Head default", 4, None, Some("LP"), 0), asi("0", 1)],
                    )],
                )]),
            ),
            symbol("BF NOTE LEFT", Some(vec![])),
        ]),
        None,
    )
}

fn flatten_animation() -> RawAnimationFile {
    compact(
        Some("flatten-test"),
        Some("root"),
        vec![
            layer(Some("Labels"), vec![frame(Some("Idle"), 0, 4, vec![])]),
            layer(
                Some("Art"),
                vec![frame(None, 0, 4, vec![si("body", 0, None, Some("LP"), 0)])],
            ),
        ],
        Some(vec![symbol(
            "body",
            Some(vec![
                layer(
                    Some("front"),
                    vec![
                        frame(None, 0, 1, vec![asi("front0", 1)]),
                        frame(None, 1, 1, vec![asi("front1", 2)]),
                    ],
                ),
                layer(Some("back"), vec![frame(None, 0, 2, vec![asi("back", 3)])]),
            ]),
        )]),
        None,
    )
}

#[test]
fn parses_animation_labels_and_symbols() {
    let animation = Animation::from_compact(&bf_animation()).unwrap();
    assert_eq!(animation.name, "BoyFriend Assets_TA-Export");
    assert_eq!(animation.symbol_name, "BF ALL ANIMS");
    assert_eq!(animation.layers.len(), 1);
    let labels: Vec<_> = animation
        .labels
        .iter()
        .map(|label| (label.name.as_str(), label.index, label.duration))
        .collect();
    assert_eq!(labels, vec![("Idle", 0, 14), ("Left", 14, 8)]);
    assert_eq!(animation.label("Left").unwrap().duration, 8);
    assert!(animation.has_symbol("BF NOTE LEFT"));
    assert!(!animation.has_symbol("Missing"));

    let symbol = animation.symbol("BF idle dance").unwrap();
    assert_eq!(symbol.layers.len(), 1);
    assert_eq!(symbol.layers[0].name, "Layer 1");
    assert_eq!(symbol.layers[0].frames.len(), 1);
    let element = &symbol.layers[0].frames[0].elements[0];
    assert_eq!(element.transform, 0);
    let ElementKind::Symbol(instance) = &element.kind else {
        panic!("expected symbol instance");
    };
    assert_eq!(instance.symbol_name, "BF Head default");
    assert_eq!(instance.first_frame, 4);
    assert_eq!(instance.loop_mode.as_deref(), Some("LP"));

    let element = &symbol.layers[0].frames[0].elements[1];
    assert_eq!(element.transform, 1);
    let ElementKind::Atlas(instance) = &element.kind else {
        panic!("expected atlas instance");
    };
    assert_eq!(instance.frame_name, "0");
}

#[test]
fn flattens_label_frames_in_draw_order() {
    let animation = Animation::from_compact(&flatten_animation()).unwrap();

    let parts = animation.flatten_label_frame("Idle", 0).unwrap();
    assert_eq!(parts.len(), 2);
    assert_eq!(parts[0].frame_name, "back");
    assert_eq!(parts[0].transforms, vec![0, 3]);
    assert_eq!(parts[1].frame_name, "front0");
    assert_eq!(parts[1].transforms, vec![0, 1]);
}

#[test]
fn flattens_looping_symbol_frames() {
    let animation = Animation::from_compact(&flatten_animation()).unwrap();

    let parts = animation.flatten_label_frame("Idle", 1).unwrap();
    assert_eq!(parts[0].frame_name, "back");
    assert_eq!(parts[1].frame_name, "front1");

    let parts = animation.flatten_label_frame("Idle", 3).unwrap();
    assert_eq!(parts[0].frame_name, "back");
    assert_eq!(parts[1].frame_name, "front1");
}

#[test]
fn missing_labels_and_symbols_are_errors() {
    let animation = Animation::from_compact(&flatten_animation()).unwrap();
    assert_eq!(
        animation.flatten_label_frame("Nope", 0),
        Err(AtlasError::LabelNotFound(s("Nope")))
    );
    assert_eq!(
        animation.flatten_symbol_frame("nope", 0),
        Err(AtlasError::SymbolNotFound(s("nope")))
    );
}

#[test]
fn follows_flxanimate_top_level_symbol_dictionary_overwrite_order() {
    let raw = compact(
        Some("duplicate-symbol-test"),
        Some("root"),
        vec![
            layer(None, vec![frame(Some("Idle"), 0, 1, vec![])]),
            layer(None, vec![frame(None, 0, 1, vec![si("body", 0, None, Some("LP"), 0)])]),
        ],
        None,
        Some(vec![
            symbol("body", Some(vec![layer(None, vec![frame(None, 0, 1, vec![asi("old", 1)])])])),
            symbol("body", Some(vec![layer(None, vec![frame(None, 0, 1, vec![asi("new", 2)])])])),
        ]),
    );
    let animation = Animation::from_compact(&raw).unwrap();

    assert_eq!(animation.symbol("body").unwrap().name, "body");
    let parts = animation.flatten_label_frame("Idle", 0).unwrap();
    assert_eq!(parts[0].frame_name, "new");
}

fn loop_test(symbol_type: Option<&str>, first_frame: u32, loop_mode: Option<&str>) -> Vec<RawLayer> {
    vec![
        layer(Some("Labels"), vec![frame(Some("Idle"), 0, 4, vec![])]),
        layer(
            Some("Art"),
            vec![frame(None, 0, 4, vec![si("body", first_frame, symbol_type, loop_mode, 0)])],
        ),
    ]
}

fn body_symbol() -> RawSymbol {
    symbol(
        "body",
        Some(vec![layer(
            Some("art"),
            vec![
                frame(None, 0, 1, vec![asi("body0", 1)]),
                frame(None, 1, 1, vec![asi("body1", 2)]),
            ],
        )]),
    )
}

fn compact_loop_frame(symbol_type: Option<&str>, first_frame: u32, loop_mode: Option<&str>, frame_offset: u32) -> String {
    let raw = compact(
        Some("loop-test"),
        Some("root"),
        loop_test(symbol_type, first_frame, loop_mode),
        Some(vec![body_symbol()]),
        None,
    );
    let animation = Animation::from_compact(&raw).unwrap();
    animation
        .flatten_label_frame("Idle", frame_offset)
        .unwrap()
        .remove(0)
        .frame_name
}

fn verbose_loop_frame(symbol_type: Option<&str>, first_frame: u32, loop_mode: Option<&str>, frame_offset: u32) -> String {
    let raw = RawVerboseFile {
        name: Some(s("loop-test")),
        symbol_name: Some(s("root")),
        timeline: timeline(vec![layer(
            Some("Art"),
            vec![frame(None, 0, 4, vec![si("body", first_frame, symbol_type, loop_mode, 0)])],
        )]),
        symbol_dictionary: Some(vec![body_symbol()]),
    };
    let animation = Animation::from_verbose(&raw).unwrap();
    animation
        .flatten_symbol_frame("root", frame_offset)
        .unwrap()
        .remove(0)
        .frame_name
}

#[test]
fn follows_flxanimate_compact_symbol_loop_defaults() {
    assert_eq!(compact_loop_frame(None, 0, None, 2), "body0");
    assert_eq!(compact_loop_frame(None, 0, Some("LPR"), 2), "body0");
    assert_eq!(compact_loop_frame(None, 0, Some("PO"), 3), "body1");
    assert_eq!(compact_loop_frame(Some("MC"), 1, Some("SF"), 2), "body0");
    assert_eq!(compact_loop_frame(Some("B"), 1, Some("LP"), 1), "body0");
}

#[test]
fn follows_flxanimate_verbose_symbol_loop_defaults() {
    assert_eq!(verbose_loop_frame(None, 0, None, 2), "body0");
    assert_eq!(verbose_loop_frame(Some("movieclip"), 1, Some("singleframe"), 2), "body0");
}

#[test]
fn parses_verbose_export_symbols() {
    let raw = RawVerboseFile {
        name: Some(s("verbose")),
        symbol_name: Some(s("root")),
        timeline: timeline(vec![layer(
            Some("root-art"),
            vec![frame(None, 0, 1, vec![asi("root0", 0)])],
        )]),
        symbol_dictionary: Some(vec![
            symbol(
                "container",
                Some(vec![layer(
                    Some("front"),
                    vec![frame(None, 0, 2, vec![si("hand", 1, None, Some("singleframe"), 1)])],
                )]),
            ),
            symbol(
                "hand",
                Some(vec![layer(
                    Some("art"),
                    vec![
                        frame(None, 0, 1, vec![asi("hand0", 2)]),
                        frame(None, 1, 1, vec![asi("hand1", 3)]),
                    ],
                )]),
            ),
        ]),
    };
    let animation = Animation::from_verbose(&raw).unwrap();
    assert_eq!(animation.name, "verbose");
    assert_eq!(animation.symbol_name, "root");
    assert!(animation.has_symbol("root"));
    assert!(animation.has_symbol("container"));

    let element = &animation.symbol("container").unwrap().layers[0].frames[0].elements[0];
    let ElementKind::Symbol(instance) = &element.kind else {
        panic!("expected symbol");
    };
    assert_eq!(instance.loop_mode.as_deref(), Some("SF"));

    let parts = animation.flatten_symbol_frame("container", 1).unwrap();
    assert_eq!(parts[0].frame_name, "hand1");
    assert_eq!(parts[0].transforms, vec![1, 3]);

    let parts = animation.flatten_symbol_frame("root", 0).unwrap();
    assert_eq!(parts[0].frame_name, "root0");
    assert_eq!(parts[0].transforms, vec![0]);
}

#[test]
fn rejects_zero_duration_labels() {
    let bad = compact(None, None, vec![layer(None, vec![frame(Some("Idle"), 0, 0, vec![])])], None, None);
    assert!(matches!(
        Animation::from_compact(&bad),
        Err(AtlasError::ZeroLabelDuration(_))
    ));
}

#[test]
fn rejects_empty_symbol_names() {
    let bad = compact(None, None, vec![], Some(vec![symbol("", None)]), None);
    assert_eq!(Animation::from_compact(&bad).err(), Some(AtlasError::EmptySymbolName));
}

#[test]
fn rejects_empty_element_symbol_names() {
    let bad = compact(
        None,
        None,
        vec![],
        Some(vec![symbol(
            "container",
            Some(vec![layer(None, vec![frame(None, 0, 1, vec![si("", 0, None, None, 0)])])]),
        )]),
        None,
    );
    assert_eq!(Animation::from_compact(&bad).err(), Some(AtlasError::EmptyElementSymbolName));
}

#[test]
fn rejects_empty_element_atlas_frame_names() {
    let bad = compact(
        None,
        None,
        vec![],
        Some(vec![symbol(
            "container",
            Some(vec![layer(None, vec![frame(None, 0, 1, vec![asi("", 0)])])]),
        )]),
        None,
    );
    assert_eq!(Animation::from_compact(&bad).err(), Some(AtlasError::EmptyAtlasFrameName));
}

#[test]
fn symbol_type_and_loop_mode_normalisation() {
    assert!(is_movie_clip_symbol_type("MC"));
    assert!(is_movie_clip_symbol_type("movieclip"));
    assert!(is_button_symbol_type("B"));
    assert!(!is_button_symbol_type("G"));
    assert_eq!(normalize_symbol_first_frame(&Some(s("MC")), 5), 0);
    assert_eq!(normalize_symbol_first_frame(&None, 5), 5);
    assert_eq!(normalize_loop_mode(&Some(s("singleframe"))), Some(s("SF")));
    assert_eq!(normalize_loop_mode(&Some(s("playonce"))), None);
    assert_eq!(normalize_loop_mode(&Some(s("loop"))), Some(s("LP")));
    assert_eq!(normalize_symbol_loop_mode(&Some(s("MC")), &Some(s("PO"))), Some(s("LP")));
}

#[test]
fn flat_label_transform_takes_topmost_layer_with_an_element() {
    let animation = Animation::from_compact(&flatten_animation()).unwrap();
    assert_eq!(animation.flat_label_transform("Idle", 2), Ok(Some(0)));
    assert_eq!(
        animation.flat_label_transform("Nope", 0),
        Err(AtlasError::LabelNotFound(s("Nope")))
    );

    let raw = compact(
        Some("flat"),
        Some("root"),
        vec![
            layer(Some("Art"), vec![frame(None, 0, 2, vec![asi("a", 5)]), frame(None, 2, 2, vec![asi("b", 6)])]),
            layer(Some("Labels"), vec![frame(Some("Pose"), 0, 3, vec![])]),
        ],
        None,
        None,
    );
    let animation = Animation::from_compact(&raw).unwrap();
    assert_eq!(animation.flat_label_transform("Pose", 0), Ok(Some(5)));
    // Offsets past the label's end hold its last frame (frame 2).
    assert_eq!(animation.flat_label_transform("Pose", 9), Ok(Some(6)));

    let bare = compact(
        Some("bare"),
        Some("root"),
        vec![layer(Some("Labels"), vec![frame(Some("Pose"), 0, 1, vec![])])],
        None,
        None,
    );
    let animation = Animation::from_compact(&bare).unwrap();
    assert_eq!(animation.flat_label_transform("Pose", 0), Ok(None));
}
