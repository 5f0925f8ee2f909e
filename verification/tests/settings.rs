use gerb::settings::{
    EditorSettingsInner, EnumValue, MarkColor, SettingValue, ShowMinimap, Theme, LOCK_GUIDELINES,
    SHOW_GLYPH_GUIDELINES, SHOW_MINIMAP,
};

#[test]
fn kebab_names() {
    assert_eq!(MarkColor::Nothing.name(), "none");
    assert_eq!(ShowMinimap::WhenManipulating.name(), "when-manipulating");
    assert_eq!(Theme::SystemDefault.name(), "system-default");
    assert_eq!(MarkColor::kebab_str_deserialize("none"), Some(MarkColor::Nothing));
    assert_eq!(Theme::kebab_str_deserialize("paperwhite"), Some(Theme::Paperwhite));
    assert_eq!(ShowMinimap::kebab_str_deserialize("sometimes"), None);
    assert_eq!(MarkColor::kebab_case_variants(), vec!["none", "background", "icon"]);
    assert_eq!(ShowMinimap::kebab_case_variants(), vec!["never", "always", "when-manipulating"]);
    assert_eq!(Theme::kebab_case_variants(), vec!["system-default", "paperwhite"]);
    assert_eq!(MarkColor::default(), MarkColor::Icon);
    assert_eq!(ShowMinimap::default(), ShowMinimap::WhenManipulating);
    assert_eq!(Theme::default(), Theme::SystemDefault);
}

#[test]
fn names_read_back() {
    for m in [MarkColor::Nothing, MarkColor::Background, MarkColor::Icon] {
        assert_eq!(MarkColor::kebab_str_deserialize(&m.name()), Some(m));
    }
    for t in [Theme::SystemDefault, Theme::Paperwhite] {
        assert_eq!(Theme::kebab_str_deserialize(&t.name()), Some(t));
    }
}

#[test]
fn editor_settings_read_what_was_written() {
    let mut s = EditorSettingsInner::new();
    assert_eq!(s.property(SHOW_MINIMAP), SettingValue::Minimap(ShowMinimap::WhenManipulating));
    assert_eq!(s.property(LOCK_GUIDELINES), SettingValue::Flag(false));
    s.set_property(LOCK_GUIDELINES, SettingValue::Flag(true));
    s.set_property(SHOW_MINIMAP, SettingValue::Minimap(ShowMinimap::Never));
    assert_eq!(s.property(LOCK_GUIDELINES), SettingValue::Flag(true));
    assert_eq!(s.property(SHOW_MINIMAP), SettingValue::Minimap(ShowMinimap::Never));
    assert_eq!(s.property(SHOW_GLYPH_GUIDELINES), SettingValue::Flag(false));
}
