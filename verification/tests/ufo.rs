use gerb::ufo::layers::{
    new_dir_doesnt_start_with_glyphs, new_duplicate_dir_names_err, new_points_to_glyphs_err,
    new_starts_with_public, LayerContents, LayerContentsError, ERROR_DEFAULT_DIR_NOT_GLYPHS,
    ERROR_HAS_DUPLICATE_LAYER_DIR_NAMES, ERROR_HAS_DUPLICATE_LAYER_NAMES, ERROR_NO_LAYERS,
};
use gerb::ufo::{
    make_random_identifier, MetaInfo, PostscriptWindowsCharacterSet, RangeGaspBehavior,
    IDENTIFIER_CHARACTERS,
};
use indexmap::IndexMap;

#[test]
fn test_layercontents_plist_parse() {
    let l: LayerContents = LayerContents::new_from_str(
        r#"<?xml version="1.0" encoding="UTF-8"?>
<!DOCTYPE plist PUBLIC "-//Apple Computer//DTD PLIST 1.0//EN"
"http://www.apple.com/DTDs/PropertyList-1.0.dtd">
<plist version="1.0">
<array>
  <array>
    <string>public.default</string>
    <string>glyphs</string>
  </array>
  <array>
    <string>Sketches</string>
    <string>glyphs.S_ketches</string>
  </array>
  <array>
    <string>public.background</string>
    <string>glyphs.public.background</string>
  </array>
</array>
</plist>
"#,
    )
    .unwrap();
    let expected: IndexMap<String, String> = [
        ("public.default".to_string(), "glyphs".to_string()),
        ("Sketches".to_string(), "glyphs.S_ketches".to_string()),
        (
            "public.background".to_string(),
            "glyphs.public.background".to_string(),
        ),
    ]
    .into();
    assert_eq!(l.layers(), &expected);
    for (input, err_msg) in [
        (
            r#"<?xml version="1.0" encoding="UTF-8"?>
<!DOCTYPE plist PUBLIC "-//Apple Computer//DTD PLIST 1.0//EN"
"http://www.apple.com/DTDs/PropertyList-1.0.dtd">
<plist version="1.0">
<array>
  <array>
    <string>public.default</string>
    <string>glyphss</string>
  </array>
</array>
</plist>
"#,
            ERROR_DEFAULT_DIR_NOT_GLYPHS.to_string(),
        ),
        (
            r#"<?xml version="1.0" encoding="UTF-8"?>
<!DOCTYPE plist PUBLIC "-//Apple Computer//DTD PLIST 1.0//EN"
"http://www.apple.com/DTDs/PropertyList-1.0.dtd">
<plist version="1.0">
<array>
</array>
</plist>
"#,
            ERROR_NO_LAYERS.to_string(),
        ),
        (
            r#"<?xml version="1.0" encoding="UTF-8"?>
<!DOCTYPE plist PUBLIC "-//Apple Computer//DTD PLIST 1.0//EN"
"http://www.apple.com/DTDs/PropertyList-1.0.dtd">
<plist version="1.0">
<array>
  <array>
    <string>public.default</string>
    <string>glyphs</string>
  </array>
  <array>
    <string>public.default</string>
    <string>glyphs</string>
  </array>
</array>
</plist>
"#,
            ERROR_HAS_DUPLICATE_LAYER_NAMES.to_string(),
        ),
        (
            r#"<?xml version="1.0" encoding="UTF-8"?>
<!DOCTYPE plist PUBLIC "-//Apple Computer//DTD PLIST 1.0//EN"
"http://www.apple.com/DTDs/PropertyList-1.0.dtd">
<plist version="1.0">
<array>
  <array>
    <string>public.default</string>
    <string>glyphs</string>
  </array>
  <array>
    <string>two</string>
    <string>glyphs.two</string>
  </array>
  <array>
    <string>three</string>
    <string>glyphs.two</string>
  </array>
</array>
</plist>
"#,
            ERROR_HAS_DUPLICATE_LAYER_DIR_NAMES.to_string(),
        ),
        (
            r#"<?xml version="1.0" encoding="UTF-8"?>
<!DOCTYPE plist PUBLIC "-//Apple Computer//DTD PLIST 1.0//EN"
"http://www.apple.com/DTDs/PropertyList-1.0.dtd">
<plist version="1.0">
<array>
  <array>
    <string>public.default</string>
    <string>glyphs</string>
  </array>
  <array>
    <string>public.default.2</string>
    <string>2glyphs</string>
  </array>
</array>
</plist>
"#,
            new_starts_with_public("public.default.2"),
        ),
        (
            r#"<?xml version="1.0" encoding="UTF-8"?>
<!DOCTYPE plist PUBLIC "-//Apple Computer//DTD PLIST 1.0//EN"
"http://www.apple.com/DTDs/PropertyList-1.0.dtd">
<plist version="1.0">
<array>
  <array>
    <string>public.default</string>
    <string>glyphs</string>
  </array>
  <array>
    <string>_public.default.2</string>
    <string>2glyphs</string>
  </array>
</array>
</plist>
"#,
            new_dir_doesnt_start_with_glyphs("_public.default.2", "2glyphs"),
        ),
    ] {
        assert_eq!(
            &LayerContents::new_from_str(input).unwrap_err().message(),
            &err_msg
        );
    }
}

#[test]
fn test_make_random_identifier() {
    assert_eq!(make_random_identifier().len(), 10);
}

fn pairs(v: &[(&str, &str)]) -> Vec<(String, String)> {
    v.iter().map(|(a, b)| (a.to_string(), b.to_string())).collect()
}

#[test]
fn layers_missing_default_is_a_duplicate_names_error() {
    let e = LayerContents::from_pairs(pairs(&[("Sketches", "glyphs.S_ketches")])).unwrap_err();
    assert!(matches!(e, LayerContentsError::DuplicateLayerNames));
    assert_eq!(e.message(), ERROR_HAS_DUPLICATE_LAYER_NAMES);
}

#[test]
fn layers_other_layer_in_glyphs_is_refused() {
    let e = LayerContents::from_pairs(pairs(&[("public.default", "glyphs"), ("two", "glyphs")]))
        .unwrap_err();
    assert_eq!(e.message(), new_points_to_glyphs_err("two"));
    assert_eq!(
        e.message(),
        "layer `two` points to the `glyphs` directory but only the `public.default` layer can as per the UFO standard."
    );
}

#[test]
fn layers_name_equal_to_an_earlier_directory_is_refused() {
    let e = LayerContents::from_pairs(pairs(&[
        ("public.default", "glyphs"),
        ("glyphs.a", "glyphs.b"),
        ("x", "glyphs.x"),
    ]));
    assert!(e.is_ok());
    let e = LayerContents::from_pairs(pairs(&[
        ("public.default", "glyphs"),
        ("a", "glyphs.a"),
        ("glyphs.a", "glyphs.c"),
    ]))
    .unwrap_err();
    assert_eq!(e.message(), new_duplicate_dir_names_err("glyphs.a", "glyphs.c", "glyphs.a"));
    assert_eq!(
        e.message(),
        "layer `glyphs.a` points to directory glyphs.c but layer glyphs.a points to glyphs.c as well. Layer directories must be unique."
    );
}

#[test]
fn layers_default_layer_may_come_later() {
    let l = LayerContents::from_pairs(pairs(&[("a", "glyphs.a"), ("public.default", "glyphs")]))
        .unwrap();
    assert_eq!(l.layers().len(), 2);
    assert_eq!(l.layers().get_index(0).unwrap().0, "a");
}

#[test]
fn layers_not_a_property_list() {
    let e = LayerContents::new_from_str("this is not xml").unwrap_err();
    assert!(matches!(e, LayerContentsError::Plist(_)));
}

#[test]
fn layers_default_is_the_default_layer() {
    let l = LayerContents::default();
    let expected: IndexMap<String, String> =
        [("public.default".to_string(), "glyphs".to_string())].into();
    assert_eq!(l.layers(), &expected);
}

#[test]
fn identifier_characters_are_distinct_letters_and_digits() {
    for _ in 0..20 {
        let id = make_random_identifier();
        assert_eq!(id.chars().count(), 10);
        for c in id.chars() {
            assert!(IDENTIFIER_CHARACTERS.contains(c));
        }
        let mut cs: Vec<char> = id.chars().collect();
        cs.sort();
        cs.dedup();
        assert_eq!(cs.len(), 10);
    }
}

#[test]
fn gasp_and_charset_codes() {
    assert_eq!(RangeGaspBehavior::GASP_SYMMETRIC_GRIDFIT.value(), 2);
    assert_eq!(RangeGaspBehavior::from_value(1), Some(RangeGaspBehavior::GASP_DOGRAY));
    assert_eq!(RangeGaspBehavior::from_value(4), None);
    assert_eq!(PostscriptWindowsCharacterSet::ANSI.value(), 1);
    assert_eq!(PostscriptWindowsCharacterSet::OEM.value(), 20);
    assert_eq!(
        PostscriptWindowsCharacterSet::from_value(14),
        Some(PostscriptWindowsCharacterSet::Arabic)
    );
    assert_eq!(PostscriptWindowsCharacterSet::from_value(0), None);
    assert_eq!(PostscriptWindowsCharacterSet::from_value(21), None);
}

#[test]
fn metainfo_default() {
    let m = MetaInfo::default();
    assert_eq!(m.creator, "io.github.epilys.gerb");
    assert_eq!(m.format_version, 3);
    assert_eq!(m.format_version_minor, 0);
}
