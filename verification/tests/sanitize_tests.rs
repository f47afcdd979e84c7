use lmpic_downloader::sanitize::filenamify;

#[test]
fn reserved_device_name_gets_a_marker() {
    let out = filenamify("CON");
    assert_ne!(out, "CON");
    assert_eq!(out, "CON_");
}

#[test]
fn reserved_characters_are_removed() {
    assert_eq!(filenamify("a/b:c"), "abc");
}

#[test]
fn sanitization_is_idempotent_on_concrete_inputs() {
    let inputs = [
        "CON",
        "a/b:c",
        "..weird<name>..",
        "com3",
        "LPT7",
        "nul",
        "NUL.",
        "....",
        " spaces ",
        "a\\b|c?d*e",
        "\u{0001}a\u{009f}b",
        "普通相册",
        "相册/2024:夏",
        "",
    ];
    for input in inputs {
        let once = filenamify(input);
        let twice = filenamify(&once);
        assert_eq!(twice, once, "not idempotent on {input:?}");
    }
}

#[test]
fn sanitized_output_is_filesystem_safe() {
    let inputs = ["CON", "..a..", "x<y>z", "com9", "lpt0", "aux", "prn", "名字??"];
    for input in inputs {
        let out = filenamify(input);
        for c in out.chars() {
            assert!(!"<>:\"/\\|?*".contains(c), "reserved char in {out:?}");
            assert!(!c.is_control(), "control char in {out:?}");
        }
        assert!(!out.starts_with('.'), "leading period in {out:?}");
        assert!(!out.ends_with('.'), "trailing period in {out:?}");
        let lower = out.to_lowercase();
        assert!(lower != "con" && lower != "prn" && lower != "aux" && lower != "nul");
    }
}

#[test]
fn control_and_period_edges() {
    assert_eq!(filenamify("..photo.."), "photo");
    assert_eq!(filenamify("...."), "");
    assert_eq!(filenamify("com3"), "com3_");
    assert_eq!(filenamify("comx"), "comx");
    assert_eq!(filenamify("普通相册"), "普通相册");
}
