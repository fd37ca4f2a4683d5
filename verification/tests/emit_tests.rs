use libcamera_cgen::emit::generate_controls;
use libcamera_cgen::emit::generate_header;
use libcamera_cgen::emit::Control;
use libcamera_cgen::emit::ControlValue;

fn plain(name: &str, description: &str) -> Control {
    Control {
        name: name.to_string(),
        description: description.to_string(),
        enumeration: None,
    }
}

fn valued(name: &str, description: &str, values: Vec<ControlValue>) -> Control {
    Control {
        name: name.to_string(),
        description: description.to_string(),
        enumeration: Some(values),
    }
}

fn value(name: &str, description: &str, value: i64) -> ControlValue {
    ControlValue {
        name: name.to_string(),
        description: description.to_string(),
        value,
    }
}

#[test]
fn sequential_ids_in_catalog_order() {
    let records = vec![
        plain("ZzLast", "z.\n"),
        plain("AaFirst", "a.\n"),
        plain("MmMiddle", "m.\n"),
    ];
    let out = generate_controls(&records, "control");
    assert!(out.contains("    LIBCAMERA_CONTROL_ID_ZZ_LAST = 1,\n"));
    assert!(out.contains("    LIBCAMERA_CONTROL_ID_AA_FIRST = 2,\n"));
    assert!(out.contains("    LIBCAMERA_CONTROL_ID_MM_MIDDLE = 3,\n"));
    let p1 = out.find("= 1,").unwrap();
    let p2 = out.find("= 2,").unwrap();
    let p3 = out.find("= 3,").unwrap();
    assert!(p1 < p2 && p2 < p3);
}

#[test]
fn end_to_end_single_control() {
    let controls = vec![plain("AeEnable", "Enable auto exposure.\n")];
    let properties: Vec<Control> = Vec::new();
    let out = generate_header(&controls, &properties);
    let expected = "/// Generated by `cargo run --bin generate_c`\n\
                    \n\
                    #ifndef __LIBCAMERA_C_CONTROLS_GENERATED__\n\
                    #define __LIBCAMERA_C_CONTROLS_GENERATED__\n\
                    \n\
                    \n\
                    enum libcamera_control_id {\n\
                    \x20   /**\n\
                    \x20    * Enable auto exposure.\n\
                    \x20    */\n\
                    \x20   LIBCAMERA_CONTROL_ID_AE_ENABLE = 1,\n\
                    };\n\
                    \n\
                    enum libcamera_property_id {\n\
                    };\n\
                    \n\
                    #endif\n";
    assert_eq!(out, expected);
    assert!(!out.contains("enum libcamera_ae_enable"));
}

#[test]
fn secondary_enum_emitted_after_primary() {
    let records = vec![
        valued(
            "AeState",
            "The AE state.\n",
            vec![
                value("AeStateIdle", "Idle.\n", 0),
                value("AeStateSearching", "Searching.\n", 1),
            ],
        ),
        plain("Brightness", "Image brightness.\n"),
    ];
    let out = generate_controls(&records, "control");
    let expected = "enum libcamera_control_id {\n\
                    \x20   /**\n\
                    \x20    * The AE state.\n\
                    \x20    */\n\
                    \x20   LIBCAMERA_CONTROL_ID_AE_STATE = 1,\n\
                    \x20   /**\n\
                    \x20    * Image brightness.\n\
                    \x20    */\n\
                    \x20   LIBCAMERA_CONTROL_ID_BRIGHTNESS = 2,\n\
                    };\n\
                    \n\
                    /**\n\
                    \x20* \\brief Supported values for LIBCAMERA_CONTROL_ID_AE_STATE\n\
                    \x20*/\n\
                    enum libcamera_ae_state {\n\
                    \x20   /**\n\
                    \x20    * Idle.\n\
                    \x20    */\n\
                    \x20   LIBCAMERA_AE_STATE_IDLE = 0,\n\
                    \x20   /**\n\
                    \x20    * Searching.\n\
                    \x20    */\n\
                    \x20   LIBCAMERA_AE_STATE_SEARCHING = 1,\n\
                    };\n\
                    \n";
    assert_eq!(out, expected);
}

#[test]
fn enumeration_values_verbatim_and_negative() {
    let records = vec![valued(
        "ColourGains",
        "Gains.\n",
        vec![
            value("GainOff", "Off.\n", -3),
            value("GainHigh", "High.\n", 17),
        ],
    )];
    let out = generate_controls(&records, "control");
    assert!(out.contains("    LIBCAMERA_GAIN_OFF = -3,\n"));
    assert!(out.contains("    LIBCAMERA_GAIN_HIGH = 17,\n"));
}

#[test]
fn empty_category_still_declares_enum() {
    let records: Vec<Control> = Vec::new();
    let out = generate_controls(&records, "property");
    assert_eq!(out, "enum libcamera_property_id {\n};\n\n");
}

#[test]
fn full_run_deterministic() {
    let make = || {
        vec![
            plain("AeEnable", "Enable auto exposure.\n"),
            valued(
                "AwbMode",
                "White balance mode.\n",
                vec![value("AwbAuto", "Automatic.\n", 0)],
            ),
        ]
    };
    let props = || vec![plain("Location", "Camera location.\n")];
    let first = generate_header(&make(), &props());
    let second = generate_header(&make(), &props());
    assert_eq!(first.as_bytes(), second.as_bytes());
}
