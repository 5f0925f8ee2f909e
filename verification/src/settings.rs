//! Settings: the choices they offer, named in kebab case as the settings
//! file writes them, and the editor's own settings.
use vstd::prelude::*;

use crate::text::str_equal;

verus! {

/// A setting with a fixed set of choices, each named in kebab case.
pub trait EnumValue: Sized {
    /// The kebab-case name of a choice.
    spec fn kebab_name(&self) -> Seq<char>;

    /// The kebab-case name of the choice.
    fn name(&self) -> (ret: String)
        ensures
            ret@ == self.kebab_name(),
    ;

    /// The choice named `s`, if one is.
    fn kebab_str_deserialize(s: &str) -> (ret: Option<Self>)
        ensures
            ret matches Some(v) ==> v.kebab_name() == s@,
            ret is None ==> forall|v: Self| v.kebab_name() != s@,
    ;

    /// The names of all choices, in order.
    fn kebab_case_variants() -> (ret: Vec<&'static str>)
        ensures
            forall|v: Self| #![trigger v.kebab_name()] exists|i: int| #![trigger ret@[i]] 0 <= i < ret@.len() && ret@[i]@ == v.kebab_name(),
            forall|i: int| #![trigger ret@[i]] 0 <= i < ret@.len() ==> exists|v: Self| #![trigger v.kebab_name()] ret@[i]@ == v.kebab_name(),
    ;
}

/// How glyphs with a mark color show it.
#[derive(Debug, Default, Copy, Clone, PartialEq, Eq, Structural)]
pub enum MarkColor {
    /// Marks are not shown (named `none`).
    Nothing,
    Background,
    #[default]
    Icon,
}

/// When the editor shows the minimap of a glyph.
#[derive(Debug, Default, Copy, Clone, PartialEq, Eq, Structural)]
pub enum ShowMinimap {
    Never,
    Always,
    #[default]
    WhenManipulating,
}

/// The look of the application.
#[derive(Debug, Default, Copy, Clone, PartialEq, Eq, Structural)]
pub enum Theme {
    #[default]
    SystemDefault,
    Paperwhite,
}

impl EnumValue for MarkColor {
    open spec fn kebab_name(&self) -> Seq<char> {
        match self {
            MarkColor::Nothing => "none"@,
            MarkColor::Background => "background"@,
            MarkColor::Icon => "icon"@,
        }
    }

    fn name(&self) -> (ret: String) {
        match self {
            MarkColor::Nothing => String::from_str("none"),
            MarkColor::Background => String::from_str("background"),
            MarkColor::Icon => String::from_str("icon"),
        }
    }

    fn kebab_str_deserialize(s: &str) -> (ret: Option<Self>) {
        if str_equal(s, "none") {
            Some(MarkColor::Nothing)
        } else if str_equal(s, "background") {
            Some(MarkColor::Background)
        } else if str_equal(s, "icon") {
            Some(MarkColor::Icon)
        } else {
            None
        }
    }

    fn kebab_case_variants() -> (ret: Vec<&'static str>) {
        let ret = vec!["none", "background", "icon"];
        assert forall|v: Self| #![trigger v.kebab_name()] exists|i: int| #![trigger ret@[i]] 0 <= i < ret@.len() && ret@[i]@ == v.kebab_name() by {
            match v {
                MarkColor::Nothing => assert(ret@[0]@ == v.kebab_name()),
                MarkColor::Background => assert(ret@[1]@ == v.kebab_name()),
                MarkColor::Icon => assert(ret@[2]@ == v.kebab_name()),
            }
        }
        assert forall|i: int| #![trigger ret@[i]] 0 <= i < ret@.len() implies exists|v: Self| #![trigger v.kebab_name()] ret@[i]@ == v.kebab_name() by {
            if i == 0 {
                assert(ret@[i]@ == MarkColor::Nothing.kebab_name());
            } else if i == 1 {
                assert(ret@[i]@ == MarkColor::Background.kebab_name());
            } else {
                assert(ret@[i]@ == MarkColor::Icon.kebab_name());
            }
        }
        ret
    }
}

impl EnumValue for ShowMinimap {
    open spec fn kebab_name(&self) -> Seq<char> {
        match self {
            ShowMinimap::Never => "never"@,
            ShowMinimap::Always => "always"@,
            ShowMinimap::WhenManipulating => "when-manipulating"@,
        }
    }

    fn name(&self) -> (ret: String) {
        match self {
            ShowMinimap::Never => String::from_str("never"),
            ShowMinimap::Always => String::from_str("always"),
            ShowMinimap::WhenManipulating => String::from_str("when-manipulating"),
        }
    }

    fn kebab_str_deserialize(s: &str) -> (ret: Option<Self>) {
        if str_equal(s, "never") {
            Some(ShowMinimap::Never)
        } else if str_equal(s, "always") {
            Some(ShowMinimap::Always)
        } else if str_equal(s, "when-manipulating") {
            Some(ShowMinimap::WhenManipulating)
        } else {
            None
        }
    }

    fn kebab_case_variants() -> (ret: Vec<&'static str>) {
        let ret = vec!["never", "always", "when-manipulating"];
        assert forall|v: Self| #![trigger v.kebab_name()] exists|i: int| #![trigger ret@[i]] 0 <= i < ret@.len() && ret@[i]@ == v.kebab_name() by {
            match v {
                ShowMinimap::Never => assert(ret@[0]@ == v.kebab_name()),
                ShowMinimap::Always => assert(ret@[1]@ == v.kebab_name()),
                ShowMinimap::WhenManipulating => assert(ret@[2]@ == v.kebab_name()),
            }
        }
        assert forall|i: int| #![trigger ret@[i]] 0 <= i < ret@.len() implies exists|v: Self| #![trigger v.kebab_name()] ret@[i]@ == v.kebab_name() by {
            if i == 0 {
                assert(ret@[i]@ == ShowMinimap::Never.kebab_name());
            } else if i == 1 {
                assert(ret@[i]@ == ShowMinimap::Always.kebab_name());
            } else {
                assert(ret@[i]@ == ShowMinimap::WhenManipulating.kebab_name());
            }
        }
        ret
    }
}

impl EnumValue for Theme {
    open spec fn kebab_name(&self) -> Seq<char> {
        match self {
            Theme::SystemDefault => "system-default"@,
            Theme::Paperwhite => "paperwhite"@,
        }
    }

    fn name(&self) -> (ret: String) {
        match self {
            Theme::SystemDefault => String::from_str("system-default"),
            Theme::Paperwhite => String::from_str("paperwhite"),
        }
    }

    fn kebab_str_deserialize(s: &str) -> (ret: Option<Self>) {
        if str_equal(s, "system-default") {
            Some(Theme::SystemDefault)
        } else if str_equal(s, "paperwhite") {
            Some(Theme::Paperwhite)
        } else {
            None
        }
    }

    fn kebab_case_variants() -> (ret: Vec<&'static str>) {
        let ret = vec!["system-default", "paperwhite"];
        assert forall|v: Self| #![trigger v.kebab_name()] exists|i: int| #![trigger ret@[i]] 0 <= i < ret@.len() && ret@[i]@ == v.kebab_name() by {
            match v {
                Theme::SystemDefault => assert(ret@[0]@ == v.kebab_name()),
                Theme::Paperwhite => assert(ret@[1]@ == v.kebab_name()),
            }
        }
        assert forall|i: int| #![trigger ret@[i]] 0 <= i < ret@.len() implies exists|v: Self| #![trigger v.kebab_name()] ret@[i]@ == v.kebab_name() by {
            if i == 0 {
                assert(ret@[i]@ == Theme::SystemDefault.kebab_name());
            } else {
                assert(ret@[i]@ == Theme::Paperwhite.kebab_name());
            }
        }
        ret
    }
}

/// A choice is known by its name: two choices with one name are the same,
/// so reading back the name of a choice gives the choice.
pub proof fn law_kebab_names_identify_choices(
    m1: MarkColor,
    m2: MarkColor,
    s1: ShowMinimap,
    s2: ShowMinimap,
    t1: Theme,
    t2: Theme,
)
    ensures
        m1.kebab_name() == m2.kebab_name() ==> m1 == m2,
        s1.kebab_name() == s2.kebab_name() ==> s1 == s2,
        t1.kebab_name() == t2.kebab_name() ==> t1 == t2,
{
    reveal_strlit("none");
    reveal_strlit("background");
    reveal_strlit("icon");
    reveal_strlit("never");
    reveal_strlit("always");
    reveal_strlit("when-manipulating");
    reveal_strlit("system-default");
    reveal_strlit("paperwhite");
    if m1 != m2 {
        assert(m1.kebab_name()[0] != m2.kebab_name()[0] || m1.kebab_name().len() != m2.kebab_name().len());
    }
    if s1 != s2 {
        assert(s1.kebab_name()[0] != s2.kebab_name()[0] || s1.kebab_name().len() != s2.kebab_name().len());
    }
    if t1 != t2 {
        assert(t1.kebab_name()[0] != t2.kebab_name()[0]);
    }
}

/// The name of the minimap setting.
pub const SHOW_MINIMAP: &'static str = "show-minimap";

/// The name of the setting that locks guidelines.
pub const LOCK_GUIDELINES: &'static str = "lock-guidelines";

/// The name of the setting that shows a glyph's own guidelines.
pub const SHOW_GLYPH_GUIDELINES: &'static str = "show-glyph-guidelines";

/// The name of the setting that shows the project's guidelines.
pub const SHOW_PROJECT_GUIDELINES: &'static str = "show-project-guidelines";

/// The name of the setting that shows the metrics guidelines.
pub const SHOW_METRICS_GUIDELINES: &'static str = "show-metrics-guidelines";

proof fn lemma_setting_names_distinct()
    ensures
        SHOW_MINIMAP@ != LOCK_GUIDELINES@,
        SHOW_MINIMAP@ != SHOW_GLYPH_GUIDELINES@,
        SHOW_MINIMAP@ != SHOW_PROJECT_GUIDELINES@,
        SHOW_MINIMAP@ != SHOW_METRICS_GUIDELINES@,
        LOCK_GUIDELINES@ != SHOW_GLYPH_GUIDELINES@,
        LOCK_GUIDELINES@ != SHOW_PROJECT_GUIDELINES@,
        LOCK_GUIDELINES@ != SHOW_METRICS_GUIDELINES@,
        SHOW_GLYPH_GUIDELINES@ != SHOW_PROJECT_GUIDELINES@,
        SHOW_GLYPH_GUIDELINES@ != SHOW_METRICS_GUIDELINES@,
        SHOW_PROJECT_GUIDELINES@ != SHOW_METRICS_GUIDELINES@,
{
    reveal_strlit("show-minimap");
    reveal_strlit("lock-guidelines");
    reveal_strlit("show-glyph-guidelines");
    reveal_strlit("show-project-guidelines");
    reveal_strlit("show-metrics-guidelines");
    assert(SHOW_MINIMAP@[0] != LOCK_GUIDELINES@[0]);
    assert(SHOW_MINIMAP@[5] != SHOW_GLYPH_GUIDELINES@[5]);
    assert(SHOW_MINIMAP@[5] != SHOW_PROJECT_GUIDELINES@[5]);
    assert(SHOW_MINIMAP@[6] != SHOW_METRICS_GUIDELINES@[6]);
    assert(LOCK_GUIDELINES@[0] != SHOW_GLYPH_GUIDELINES@[0]);
    assert(LOCK_GUIDELINES@[0] != SHOW_PROJECT_GUIDELINES@[0]);
    assert(LOCK_GUIDELINES@[0] != SHOW_METRICS_GUIDELINES@[0]);
    assert(SHOW_GLYPH_GUIDELINES@[5] != SHOW_PROJECT_GUIDELINES@[5]);
    assert(SHOW_GLYPH_GUIDELINES@[5] != SHOW_METRICS_GUIDELINES@[5]);
    assert(SHOW_PROJECT_GUIDELINES@[5] != SHOW_METRICS_GUIDELINES@[5]);
}

/// The value of a setting.
#[derive(Debug, Copy, Clone, PartialEq, Eq, Structural)]
pub enum SettingValue {
    Minimap(ShowMinimap),
    Flag(bool),
}

/// `name` is the name of one of the editor's settings.
pub open spec fn is_editor_setting(name: Seq<char>) -> bool {
    name == SHOW_MINIMAP@ || name == LOCK_GUIDELINES@ || name == SHOW_GLYPH_GUIDELINES@ || name
        == SHOW_PROJECT_GUIDELINES@ || name == SHOW_METRICS_GUIDELINES@
}

/// `value` has the kind of the setting `name`.
pub open spec fn fits_setting(name: Seq<char>, value: SettingValue) -> bool {
    if name == SHOW_MINIMAP@ {
        value is Minimap
    } else {
        value is Flag
    }
}

/// The editor's settings.
#[derive(Debug, Default, Copy, Clone, PartialEq, Eq, Structural)]
pub struct EditorSettingsInner {
    show_minimap: ShowMinimap,
    lock_guidelines: bool,
    show_glyph_guidelines: bool,
    show_project_guidelines: bool,
    show_metrics_guidelines: bool,
}

impl EditorSettingsInner {
    /// The value of the setting named `name`, as the settings stand.
    pub closed spec fn setting(self, name: Seq<char>) -> SettingValue {
        if name == SHOW_MINIMAP@ {
            SettingValue::Minimap(self.show_minimap)
        } else if name == LOCK_GUIDELINES@ {
            SettingValue::Flag(self.lock_guidelines)
        } else if name == SHOW_GLYPH_GUIDELINES@ {
            SettingValue::Flag(self.show_glyph_guidelines)
        } else if name == SHOW_PROJECT_GUIDELINES@ {
            SettingValue::Flag(self.show_project_guidelines)
        } else {
            SettingValue::Flag(self.show_metrics_guidelines)
        }
    }

    /// The settings after the setting `name` is set to `value`.
    pub closed spec fn with_setting(self, name: Seq<char>, value: SettingValue) -> Self {
        match value {
            SettingValue::Minimap(m) => EditorSettingsInner { show_minimap: m, ..self },
            SettingValue::Flag(b) => if name == LOCK_GUIDELINES@ {
                EditorSettingsInner { lock_guidelines: b, ..self }
            } else if name == SHOW_GLYPH_GUIDELINES@ {
                EditorSettingsInner { show_glyph_guidelines: b, ..self }
            } else if name == SHOW_PROJECT_GUIDELINES@ {
                EditorSettingsInner { show_project_guidelines: b, ..self }
            } else {
                EditorSettingsInner { show_metrics_guidelines: b, ..self }
            },
        }
    }

    /// The settings as they start: the minimap shown while a glyph is
    /// manipulated, every flag off.
    pub fn new() -> (ret: Self)
        ensures
            ret.setting(SHOW_MINIMAP@) == SettingValue::Minimap(ShowMinimap::WhenManipulating),
            ret.setting(LOCK_GUIDELINES@) == SettingValue::Flag(false),
            ret.setting(SHOW_GLYPH_GUIDELINES@) == SettingValue::Flag(false),
            ret.setting(SHOW_PROJECT_GUIDELINES@) == SettingValue::Flag(false),
            ret.setting(SHOW_METRICS_GUIDELINES@) == SettingValue::Flag(false),
    {
        proof {
            lemma_setting_names_distinct();
        }
        EditorSettingsInner {
            show_minimap: ShowMinimap::WhenManipulating,
            lock_guidelines: false,
            show_glyph_guidelines: false,
            show_project_guidelines: false,
            show_metrics_guidelines: false,
        }
    }

    /// The value of the setting named `name`, which must be one of the
    /// editor's settings.
    pub fn property(&self, name: &str) -> (ret: SettingValue)
        requires
            is_editor_setting(name@),
        ensures
            ret == self.setting(name@),
    {
        proof {
            lemma_setting_names_distinct();
        }
        if str_equal(name, SHOW_MINIMAP) {
            SettingValue::Minimap(self.show_minimap)
        } else if str_equal(name, LOCK_GUIDELINES) {
            SettingValue::Flag(self.lock_guidelines)
        } else if str_equal(name, SHOW_GLYPH_GUIDELINES) {
            SettingValue::Flag(self.show_glyph_guidelines)
        } else if str_equal(name, SHOW_PROJECT_GUIDELINES) {
            SettingValue::Flag(self.show_project_guidelines)
        } else {
            SettingValue::Flag(self.show_metrics_guidelines)
        }
    }

    /// Sets the setting named `name`, one of the editor's settings, to a
    /// value of its kind; the other settings keep their values.
    pub fn set_property(&mut self, name: &str, value: SettingValue)
        requires
            is_editor_setting(name@),
            fits_setting(name@, value),
        ensures
            *final(self) == old(self).with_setting(name@, value),
    {
        proof {
            lemma_setting_names_distinct();
        }
        match value {
            SettingValue::Minimap(m) => {
                self.show_minimap = m;
            },
            SettingValue::Flag(b) => {
                if str_equal(name, LOCK_GUIDELINES) {
                    self.lock_guidelines = b;
                } else if str_equal(name, SHOW_GLYPH_GUIDELINES) {
                    self.show_glyph_guidelines = b;
                } else if str_equal(name, SHOW_PROJECT_GUIDELINES) {
                    self.show_project_guidelines = b;
                } else {
                    self.show_metrics_guidelines = b;
                }
            },
        }
    }
}

/// Reading a setting gives what was last written to it; writing a
/// setting leaves the others as they were.
pub proof fn law_setting_reads_last_write(
    s: EditorSettingsInner,
    name: Seq<char>,
    value: SettingValue,
    other: Seq<char>,
)
    requires
        is_editor_setting(name),
        is_editor_setting(other),
        fits_setting(name, value),
    ensures
        s.with_setting(name, value).setting(name) == value,
        other != name ==> s.with_setting(name, value).setting(other) == s.setting(other),
{
    lemma_setting_names_distinct();
}

} // verus!
