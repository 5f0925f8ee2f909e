//! `layercontents.plist`: the list of a font's layers, each a layer name and
//! the directory that holds its glyphs.
//!
//! The UFO 3 rules: there is at least one layer; layer names are unique;
//! the default layer is named `public.default` and stored in `glyphs`; no
//! other layer uses `glyphs`, and every other layer's directory starts with
//! `glyphs.`; layer directories are unique; names that start with
//! `public.` are reserved for the standard layers.
use vstd::prelude::*;

use indexmap::IndexMap;
use plist::Error as PlistError;

use crate::indexed::{
    map_entries, set_items, string_map_get_index, string_map_insert, string_map_len,
    string_map_new, string_set_insert, string_set_len, string_set_new,
};
use crate::text::{str_concat, str_equal, str_starts_with};

verus! {

/// The error of the `plist` crate, carried through opaque.
#[verifier::external_type_specification]
#[verifier::external_body]
pub struct ExPlistError(PlistError);

/// There is no layer at all.
pub const ERROR_NO_LAYERS: &'static str = "UFOv3 spec requires the presence of at least one layer, the default layer with name `public.default` and directory name `glyphs`.";

/// The default layer is stored elsewhere than in `glyphs`.
pub const ERROR_DEFAULT_DIR_NOT_GLYPHS: &'static str = "UFOv3 spec requires the default layer (i.e. the first one) to have its directory name equal to `glyphs`.";

/// Two layers have one name, or the default layer is missing.
pub const ERROR_HAS_DUPLICATE_LAYER_NAMES: &'static str = "UFOv3 spec requires that layer names are unique.";

/// Two layers other than the first have one directory.
pub const ERROR_HAS_DUPLICATE_LAYER_DIR_NAMES: &'static str = "Input contains duplicate layer directory values.";

/// The name of the default layer.
pub const DEFAULT_LAYER_NAME: &'static str = "public.default";

/// The directory of the default layer.
pub const DEFAULT_LAYER_DIR: &'static str = "glyphs";

/// Why a list of layers was refused.
#[derive(Debug)]
pub enum LayerContentsError {
    /// The text is not a property list of pairs of strings.
    Plist(PlistError),
    NoLayers,
    DefaultDirNotGlyphs,
    DuplicateLayerNames,
    DuplicateLayerDirNames,
    /// A layer other than the default one uses `glyphs`.
    PointsToGlyphs { name: String },
    /// A layer name starts with the reserved `public.` prefix.
    StartsWithPublic { name: String },
    /// A layer's directory does not start with `glyphs.`.
    DirDoesntStartWithGlyphs { name: String, dir_name: String },
    /// A layer's name is the directory of an earlier layer.
    DuplicateDirName { name: String, dir_name: String, other_dir_name: String },
}

/// A refusal, as a value.
pub enum LayerError {
    Plist,
    NoLayers,
    DefaultDirNotGlyphs,
    DuplicateLayerNames,
    DuplicateLayerDirNames,
    PointsToGlyphs(Seq<char>),
    StartsWithPublic(Seq<char>),
    DirDoesntStartWithGlyphs(Seq<char>, Seq<char>),
    DuplicateDirName(Seq<char>, Seq<char>, Seq<char>),
}

impl View for LayerContentsError {
    type V = LayerError;

    open spec fn view(&self) -> LayerError {
        match self {
            LayerContentsError::Plist(_) => LayerError::Plist,
            LayerContentsError::NoLayers => LayerError::NoLayers,
            LayerContentsError::DefaultDirNotGlyphs => LayerError::DefaultDirNotGlyphs,
            LayerContentsError::DuplicateLayerNames => LayerError::DuplicateLayerNames,
            LayerContentsError::DuplicateLayerDirNames => LayerError::DuplicateLayerDirNames,
            LayerContentsError::PointsToGlyphs { name } => LayerError::PointsToGlyphs(name@),
            LayerContentsError::StartsWithPublic { name } => LayerError::StartsWithPublic(name@),
            LayerContentsError::DirDoesntStartWithGlyphs { name, dir_name } =>
                LayerError::DirDoesntStartWithGlyphs(name@, dir_name@),
            LayerContentsError::DuplicateDirName { name, dir_name, other_dir_name } =>
                LayerError::DuplicateDirName(name@, dir_name@, other_dir_name@),
        }
    }
}

/// The message that tells a user of a refusal: the text of each rule, with
/// the offending names.
pub open spec fn layer_error_message(e: LayerError) -> Seq<char> {
    match e {
        LayerError::Plist => Seq::empty(),
        LayerError::NoLayers => ERROR_NO_LAYERS@,
        LayerError::DefaultDirNotGlyphs => ERROR_DEFAULT_DIR_NOT_GLYPHS@,
        LayerError::DuplicateLayerNames => ERROR_HAS_DUPLICATE_LAYER_NAMES@,
        LayerError::DuplicateLayerDirNames => ERROR_HAS_DUPLICATE_LAYER_DIR_NAMES@,
        LayerError::PointsToGlyphs(name) => "layer `"@ + name
            + "` points to the `glyphs` directory but only the `public.default` layer can as per the UFO standard."@,
        LayerError::StartsWithPublic(name) => "layer `"@ + name
            + "` starts with the 'public.' prefix which is reserved for use in standardized layer names as per the UFO standard."@,
        LayerError::DirDoesntStartWithGlyphs(name, dir) => "layer `"@ + name + "` directory is "@
            + dir + " but should start with `glyphs`."@,
        LayerError::DuplicateDirName(name, dir, other) => "layer `"@ + name
            + "` points to directory "@ + dir + " but layer "@ + other + " points to "@ + dir
            + " as well. Layer directories must be unique."@,
    }
}

/// The message for a layer named `name` that uses the `glyphs` directory.
pub fn new_points_to_glyphs_err(name: &str) -> (ret: String)
    ensures
        ret@ == layer_error_message(LayerError::PointsToGlyphs(name@)),
{
    let s = str_concat("layer `", name);
    str_concat(
        s.as_str(),
        "` points to the `glyphs` directory but only the `public.default` layer can as per the UFO standard.",
    )
}

/// The message for a layer named `name` with the reserved prefix.
pub fn new_starts_with_public(name: &str) -> (ret: String)
    ensures
        ret@ == layer_error_message(LayerError::StartsWithPublic(name@)),
{
    let s = str_concat("layer `", name);
    str_concat(
        s.as_str(),
        "` starts with the 'public.' prefix which is reserved for use in standardized layer names as per the UFO standard.",
    )
}

/// The message for a layer named `name` whose directory `dir_name` does
/// not start with `glyphs.`.
pub fn new_dir_doesnt_start_with_glyphs(name: &str, dir_name: &str) -> (ret: String)
    ensures
        ret@ == layer_error_message(LayerError::DirDoesntStartWithGlyphs(name@, dir_name@)),
{
    let s = str_concat("layer `", name);
    let s = str_concat(s.as_str(), "` directory is ");
    let s = str_concat(s.as_str(), dir_name);
    str_concat(s.as_str(), " but should start with `glyphs`.")
}

/// The message for a layer named `name`, stored in `dir_name`, whose name
/// is the directory `other_dir_name` of an earlier layer.
pub fn new_duplicate_dir_names_err(name: &str, dir_name: &str, other_dir_name: &str) -> (ret: String)
    ensures
        ret@ == layer_error_message(LayerError::DuplicateDirName(name@, dir_name@, other_dir_name@)),
{
    let s = str_concat("layer `", name);
    let s = str_concat(s.as_str(), "` points to directory ");
    let s = str_concat(s.as_str(), dir_name);
    let s = str_concat(s.as_str(), " but layer ");
    let s = str_concat(s.as_str(), other_dir_name);
    let s = str_concat(s.as_str(), " points to ");
    let s = str_concat(s.as_str(), dir_name);
    str_concat(s.as_str(), " as well. Layer directories must be unique.")
}

/// The message of a `plist` error (its `Display`); nothing is claimed of it.
#[verifier::external_body]
fn plist_error_text(e: &PlistError) -> String {
    e.to_string()
}

impl LayerContentsError {
    /// The message that tells a user of the refusal; for a text that is no
    /// property list, the message of the property-list reader.
    pub fn message(&self) -> (ret: String)
        ensures
            !(self@ is Plist) ==> ret@ == layer_error_message(self@),
    {
        match self {
            LayerContentsError::Plist(e) => plist_error_text(e),
            LayerContentsError::NoLayers => String::from_str(ERROR_NO_LAYERS),
            LayerContentsError::DefaultDirNotGlyphs => String::from_str(ERROR_DEFAULT_DIR_NOT_GLYPHS),
            LayerContentsError::DuplicateLayerNames => String::from_str(
                ERROR_HAS_DUPLICATE_LAYER_NAMES,
            ),
            LayerContentsError::DuplicateLayerDirNames => String::from_str(
                ERROR_HAS_DUPLICATE_LAYER_DIR_NAMES,
            ),
            LayerContentsError::PointsToGlyphs { name } => new_points_to_glyphs_err(name.as_str()),
            LayerContentsError::StartsWithPublic { name } => new_starts_with_public(name.as_str()),
            LayerContentsError::DirDoesntStartWithGlyphs { name, dir_name } =>
                new_dir_doesnt_start_with_glyphs(name.as_str(), dir_name.as_str()),
            LayerContentsError::DuplicateDirName { name, dir_name, other_dir_name } =>
                new_duplicate_dir_names_err(name.as_str(), dir_name.as_str(), other_dir_name.as_str()),
        }
    }
}

/// A list of pairs of strings, as values.
pub open spec fn pair_views(v: Seq<(String, String)>) -> Seq<(Seq<char>, Seq<char>)>
    decreases v.len(),
{
    if v.len() == 0 {
        Seq::empty()
    } else {
        pair_views(v.drop_last()).push((v.last().0@, v.last().1@))
    }
}

proof fn lemma_pair_views(v: Seq<(String, String)>)
    ensures
        pair_views(v).len() == v.len(),
        forall|i: int|
            0 <= i < v.len() ==> #[trigger] pair_views(v)[i] == (v[i].0@, v[i].1@),
    decreases v.len(),
{
    if v.len() > 0 {
        lemma_pair_views(v.drop_last());
    }
}

/// What the property list `xml` holds read as a list of pairs of strings,
/// if it is one (`plist::from_reader_xml`).
pub uninterp spec fn plist_string_pairs(xml: Seq<char>) -> Option<Seq<(Seq<char>, Seq<char>)>>;

/// Reads a property list of pairs of strings (`plist::from_reader_xml`).
#[verifier::external_body]
fn read_string_pairs(xml: &str) -> (ret: Result<Vec<(String, String)>, PlistError>)
    ensures
        match ret {
            Ok(v) => plist_string_pairs(xml@) == Some(pair_views(v@)),
            Err(_) => plist_string_pairs(xml@) is None,
        },
{
    plist::from_reader_xml(std::io::Cursor::new(xml))
}

/// No two entries of `e` have one name.
pub open spec fn names_distinct(e: Seq<(Seq<char>, Seq<char>)>) -> bool {
    forall|a: int, b: int| 0 <= a < b < e.len() ==> #[trigger] e[a].0 != #[trigger] e[b].0
}

/// The directories of the entries of `e`, in order.
pub open spec fn dirs_of(e: Seq<(Seq<char>, Seq<char>)>) -> Seq<Seq<char>>
    decreases e.len(),
{
    if e.len() == 0 {
        Seq::empty()
    } else {
        dirs_of(e.drop_last()).push(e.last().1)
    }
}

/// No two items of `s` are equal.
pub open spec fn items_distinct(s: Seq<Seq<char>>) -> bool {
    forall|a: int, b: int| 0 <= a < b < s.len() ==> #[trigger] s[a] != #[trigger] s[b]
}

/// Some entry of `e` is the default layer.
pub open spec fn has_default_layer(e: Seq<(Seq<char>, Seq<char>)>) -> bool {
    exists|i: int| 0 <= i < e.len() && #[trigger] e[i].0 == DEFAULT_LAYER_NAME@
}

/// `s` starts with `prefix`.
pub open spec fn starts_with(s: Seq<char>, prefix: Seq<char>) -> bool {
    prefix.len() <= s.len() && s.take(prefix.len() as int) == prefix
}

/// What is wrong with the layer `name`, stored in `dir`, after layers
/// stored in `earlier_dirs`, if anything.
pub open spec fn layer_fault(name: Seq<char>, dir: Seq<char>, earlier_dirs: Seq<Seq<char>>) -> Option<
    LayerError,
> {
    let is_default = name == DEFAULT_LAYER_NAME@;
    if is_default && dir != DEFAULT_LAYER_DIR@ {
        Some(LayerError::DefaultDirNotGlyphs)
    } else if !is_default && dir == DEFAULT_LAYER_DIR@ {
        Some(LayerError::PointsToGlyphs(name))
    } else if starts_with(name, "public."@) && !is_default && name != "public.background"@ {
        Some(LayerError::StartsWithPublic(name))
    } else if !starts_with(dir, "glyphs."@) && !is_default {
        Some(LayerError::DirDoesntStartWithGlyphs(name, dir))
    } else if earlier_dirs.contains(name) {
        Some(LayerError::DuplicateDirName(name, dir, name))
    } else {
        None
    }
}

/// The fault of the first layer of `e`, from position `i` on, that has
/// one, each judged against the directories of the layers before it.
pub open spec fn first_layer_fault(e: Seq<(Seq<char>, Seq<char>)>, i: int) -> Option<LayerError>
    decreases e.len() - i,
{
    if i < 0 || i >= e.len() {
        None
    } else {
        match layer_fault(e[i].0, e[i].1, dirs_of(e.take(i))) {
            Some(f) => Some(f),
            None => first_layer_fault(e, i + 1),
        }
    }
}

/// The layers that a list of pairs gives, or why it is refused: no
/// layers; a name that occurs twice, or no default layer; a directory that
/// occurs twice after the first layer; or the first layer that breaks a
/// rule.
pub open spec fn layers_outcome(e: Seq<(Seq<char>, Seq<char>)>) -> Result<
    Seq<(Seq<char>, Seq<char>)>,
    LayerError,
> {
    if e.len() == 0 {
        Err(LayerError::NoLayers)
    } else if !(has_default_layer(e) && names_distinct(e)) {
        Err(LayerError::DuplicateLayerNames)
    } else if !items_distinct(dirs_of(e.drop_first())) {
        Err(LayerError::DuplicateLayerDirNames)
    } else {
        match first_layer_fault(e, 0) {
            Some(f) => Err(f),
            None => Ok(e),
        }
    }
}

proof fn lemma_dirs_of(e: Seq<(Seq<char>, Seq<char>)>)
    ensures
        dirs_of(e).len() == e.len(),
        forall|i: int| 0 <= i < e.len() ==> #[trigger] dirs_of(e)[i] == e[i].1,
    decreases e.len(),
{
    if e.len() > 0 {
        lemma_dirs_of(e.drop_last());
    }
}

fn has_default_exec(v: &Vec<(String, String)>) -> (ret: bool)
    ensures
        ret == has_default_layer(pair_views(v@)),
{
    proof {
        lemma_pair_views(v@);
    }
    let mut i: usize = 0;
    while i < v.len()
        invariant
            i <= v@.len(),
            pair_views(v@).len() == v@.len(),
            forall|j: int| 0 <= j < v@.len() ==> #[trigger] pair_views(v@)[j] == (v@[j].0@, v@[j].1@),
            forall|j: int| 0 <= j < i ==> pair_views(v@)[j].0 != DEFAULT_LAYER_NAME@,
        decreases v@.len() - i,
    {
        if str_equal(v[i].0.as_str(), DEFAULT_LAYER_NAME) {
            assert(pair_views(v@)[i as int].0 == DEFAULT_LAYER_NAME@);
            return true;
        }
        i = i + 1;
    }
    false
}

/// Whether the layer name `name` is the directory of one of the first `i`
/// entries of `layers`.
fn earlier_dir_is(layers: &IndexMap<String, String>, i: usize, name: &String) -> (ret: bool)
    requires
        i <= map_entries(*layers).len(),
    ensures
        ret == dirs_of(map_entries(*layers).take(i as int)).contains(name@),
{
    let ghost e = map_entries(*layers);
    proof {
        lemma_dirs_of(e.take(i as int));
    }
    let mut j: usize = 0;
    while j < i
        invariant
            i <= e.len(),
            e == map_entries(*layers),
            j <= i,
            dirs_of(e.take(i as int)).len() == i,
            forall|k: int| 0 <= k < i ==> #[trigger] dirs_of(e.take(i as int))[k] == e[k].1,
            forall|k: int| 0 <= k < j ==> e[k].1 != name@,
        decreases i - j,
    {
        let (_, d) = string_map_get_index(layers, j).unwrap();
        if str_equal(d.as_str(), name.as_str()) {
            assert(dirs_of(e.take(i as int))[j as int] == name@);
            return true;
        }
        j = j + 1;
    }
    proof {
        assert forall|k: int| 0 <= k < dirs_of(e.take(i as int)).len() implies dirs_of(
            e.take(i as int),
        )[k] != name@ by {
            assert(dirs_of(e.take(i as int))[k] == e[k].1);
        }
    }
    false
}

/// What is wrong with entry `i` of `layers`, if anything.
fn layer_fault_at(layers: &IndexMap<String, String>, i: usize) -> (ret: Option<LayerContentsError>)
    requires
        i < map_entries(*layers).len(),
    ensures
        match ret {
            Some(f) => layer_fault(
                map_entries(*layers)[i as int].0,
                map_entries(*layers)[i as int].1,
                dirs_of(map_entries(*layers).take(i as int)),
            ) == Some(f@),
            None => layer_fault(
                map_entries(*layers)[i as int].0,
                map_entries(*layers)[i as int].1,
                dirs_of(map_entries(*layers).take(i as int)),
            ) is None,
        },
{
    let (name, dir) = string_map_get_index(layers, i).unwrap();
    let is_default = str_equal(name.as_str(), DEFAULT_LAYER_NAME);
    let dir_is_glyphs = str_equal(dir.as_str(), DEFAULT_LAYER_DIR);
    if is_default && !dir_is_glyphs {
        return Some(LayerContentsError::DefaultDirNotGlyphs);
    }
    if !is_default && dir_is_glyphs {
        return Some(LayerContentsError::PointsToGlyphs { name: name.clone() });
    }
    if str_starts_with(name.as_str(), "public.") && !is_default && !str_equal(
        name.as_str(),
        "public.background",
    ) {
        return Some(LayerContentsError::StartsWithPublic { name: name.clone() });
    }
    if !str_starts_with(dir.as_str(), "glyphs.") && !is_default {
        return Some(
            LayerContentsError::DirDoesntStartWithGlyphs { name: name.clone(), dir_name: dir.clone() },
        );
    }
    if earlier_dir_is(layers, i, name) {
        return Some(
            LayerContentsError::DuplicateDirName {
                name: name.clone(),
                dir_name: dir.clone(),
                other_dir_name: name.clone(),
            },
        );
    }
    None
}

proof fn lemma_no_fault_from(e: Seq<(Seq<char>, Seq<char>)>, i: int, j: int)
    requires
        0 <= i <= j < e.len(),
        first_layer_fault(e, i) is None,
    ensures
        layer_fault(e[j].0, e[j].1, dirs_of(e.take(j))) is None,
    decreases j - i,
{
    if i < j {
        lemma_no_fault_from(e, i + 1, j);
    }
}

/// A list of layers that is accepted follows the UFO 3 rules: it is not
/// empty; its names are unique and one of them is `public.default`, which
/// is stored in `glyphs`; every other layer is stored in a directory that
/// starts with `glyphs.`, and no other layer is stored in `glyphs`; the
/// directories after the first layer are unique; and only the standard
/// layers `public.default` and `public.background` have names that start
/// with `public.`.
pub proof fn law_accepted_layers_follow_rules(e: Seq<(Seq<char>, Seq<char>)>)
    requires
        layers_outcome(e) is Ok,
    ensures
        layers_outcome(e) == Ok::<Seq<(Seq<char>, Seq<char>)>, LayerError>(e),
        e.len() > 0,
        names_distinct(e),
        has_default_layer(e),
        items_distinct(dirs_of(e.drop_first())),
        forall|i: int|
            0 <= i < e.len() ==> {
                let (name, dir) = #[trigger] e[i];
                &&& name == DEFAULT_LAYER_NAME@ ==> dir == DEFAULT_LAYER_DIR@
                &&& name != DEFAULT_LAYER_NAME@ ==> dir != DEFAULT_LAYER_DIR@ && starts_with(
                    dir,
                    "glyphs."@,
                )
                &&& starts_with(name, "public."@) ==> name == DEFAULT_LAYER_NAME@ || name
                    == "public.background"@
            },
{
    assert forall|i: int| 0 <= i < e.len() implies {
        let (name, dir) = #[trigger] e[i];
        &&& name == DEFAULT_LAYER_NAME@ ==> dir == DEFAULT_LAYER_DIR@
        &&& name != DEFAULT_LAYER_NAME@ ==> dir != DEFAULT_LAYER_DIR@ && starts_with(dir, "glyphs."@)
        &&& starts_with(name, "public."@) ==> name == DEFAULT_LAYER_NAME@ || name
            == "public.background"@
    } by {
        lemma_no_fault_from(e, 0, i);
    }
}

/// The layers of a font: layer names and their directories, in order.
#[derive(Debug)]
pub struct LayerContents {
    layers: IndexMap<String, String>,
}

impl View for LayerContents {
    type V = Seq<(Seq<char>, Seq<char>)>;

    closed spec fn view(&self) -> Seq<(Seq<char>, Seq<char>)> {
        map_entries(self.layers)
    }
}

impl LayerContents {
    /// The layers from a list of pairs of a layer name and a directory,
    /// in order, or why the list breaks the UFO 3 rules.
    pub fn from_pairs(v: Vec<(String, String)>) -> (ret: Result<LayerContents, LayerContentsError>)
        ensures
            match layers_outcome(pair_views(v@)) {
                Ok(e) => ret matches Ok(l) && l@ == e,
                Err(f) => ret matches Err(g) && g@ == f,
            },
    {
        let ghost e = pair_views(v@);
        proof {
            lemma_pair_views(v@);
        }
        let n = v.len();
        if n == 0 {
            return Err(LayerContentsError::NoLayers);
        }
        let has_default = has_default_exec(&v);
        let mut layers = string_map_new();
        let mut i: usize = 0;
        while i < n
            invariant
                n == v@.len(),
                e == pair_views(v@),
                e.len() == n,
                forall|j: int| 0 <= j < n ==> #[trigger] e[j] == (v@[j].0@, v@[j].1@),
                i <= n,
                names_distinct(e.take(i as int)) ==> map_entries(layers) == e.take(i as int),
                !names_distinct(e.take(i as int)) ==> map_entries(layers).len() < i,
            decreases n - i,
        {
            let k = v[i].0.clone();
            let val = v[i].1.clone();
            let ghost t = e.take(i as int);
            let ghost t1 = e.take(i + 1);
            assert(t1 =~= t.push(e[i as int]));
            string_map_insert(&mut layers, k, val);
            proof {
                if names_distinct(t) {
                    if exists|j: int| 0 <= j < t.len() && #[trigger] t[j].0 == e[i as int].0 {
                        let j = choose|j: int| 0 <= j < t.len() && #[trigger] t[j].0 == e[i as int].0;
                        assert(t1[j].0 == t1[i as int].0);
                        assert(!names_distinct(t1));
                    } else {
                        assert(map_entries(layers) =~= t1);
                        assert forall|a: int, b: int| 0 <= a < b < t1.len() implies #[trigger] t1[a].0
                            != #[trigger] t1[b].0 by {
                            if b == i {
                                assert(t[a].0 != e[i as int].0);
                            } else {
                                assert(t[a].0 != t[b].0);
                            }
                        }
                    }
                } else {
                    let (a, b) = choose|a: int, b: int|
                        0 <= a < b < t.len() && #[trigger] t[a].0 == #[trigger] t[b].0;
                    assert(t1[a].0 == t1[b].0);
                }
            }
            i = i + 1;
        }
        assert(e.take(n as int) =~= e);
        if !has_default || string_map_len(&layers) != n {
            return Err(LayerContentsError::DuplicateLayerNames);
        }
        let ghost ds = dirs_of(e.drop_first());
        proof {
            lemma_dirs_of(e.drop_first());
        }
        let mut dirs = string_set_new();
        let mut i: usize = 1;
        while i < n
            invariant
                n == e.len(),
                map_entries(layers) == e,
                ds == dirs_of(e.drop_first()),
                ds.len() == n - 1,
                forall|j: int| 0 <= j < n - 1 ==> #[trigger] ds[j] == e[j + 1].1,
                1 <= i <= n,
                items_distinct(ds.take(i - 1)) ==> set_items(dirs) == ds.take(i - 1),
                !items_distinct(ds.take(i - 1)) ==> set_items(dirs).len() < i - 1,
            decreases n - i,
        {
            let (_, d) = string_map_get_index(&layers, i).unwrap();
            let d = d.clone();
            let ghost t = ds.take(i - 1);
            let ghost t1 = ds.take(i as int);
            assert(t1 =~= t.push(ds[i - 1]));
            assert(d@ == ds[i - 1]);
            string_set_insert(&mut dirs, d);
            proof {
                if items_distinct(t) {
                    if t.contains(ds[i - 1]) {
                        let j = choose|j: int| 0 <= j < t.len() && t[j] == ds[i - 1];
                        assert(t1[j] == t1[i - 1]);
                    } else {
                        assert forall|a: int, b: int| 0 <= a < b < t1.len() implies #[trigger] t1[a]
                            != #[trigger] t1[b] by {
                            if b == i - 1 {
                                assert(t[a] != ds[i - 1]);
                            } else {
                                assert(t[a] != t[b]);
                            }
                        }
                    }
                } else {
                    let (a, b) = choose|a: int, b: int|
                        0 <= a < b < t.len() && #[trigger] t[a] == #[trigger] t[b];
                    assert(t1[a] == t1[b]);
                }
            }
            i = i + 1;
        }
        assert(ds.take(n - 1) =~= ds);
        if string_set_len(&dirs) != n - 1 {
            return Err(LayerContentsError::DuplicateLayerDirNames);
        }
        let mut i: usize = 0;
        while i < n
            invariant
                n == e.len(),
                map_entries(layers) == e,
                e == pair_views(v@),
                n > 0,
                has_default_layer(e),
                names_distinct(e),
                items_distinct(dirs_of(e.drop_first())),
                i <= n,
                first_layer_fault(e, 0) == first_layer_fault(e, i as int),
            decreases n - i,
        {
            match layer_fault_at(&layers, i) {
                Some(f) => {
                    assert(first_layer_fault(e, i as int) == Some(f@));
                    return Err(f);
                },
                None => {},
            }
            i = i + 1;
        }
        Ok(LayerContents { layers })
    }

    /// The layers listed in the property list `xml`, or why they are
    /// refused: `Plist` when the text is not a list of pairs of strings.
    pub fn new_from_str(xml: &str) -> (ret: Result<LayerContents, LayerContentsError>)
        ensures
            match plist_string_pairs(xml@) {
                None => ret matches Err(g) && g@ == LayerError::Plist,
                Some(e) => match layers_outcome(e) {
                    Ok(l) => ret matches Ok(c) && c@ == l,
                    Err(f) => ret matches Err(g) && g@ == f,
                },
            },
    {
        match read_string_pairs(xml) {
            Ok(v) => LayerContents::from_pairs(v),
            Err(e) => Err(LayerContentsError::Plist(e)),
        }
    }

    /// The layers, in order.
    pub fn layers(&self) -> (ret: &IndexMap<String, String>)
        ensures
            map_entries(*ret) == self@,
    {
        &self.layers
    }
}

impl Default for LayerContents {
    /// The default layer alone, stored in `glyphs`.
    fn default() -> (ret: Self)
        ensures
            ret@ == seq![(DEFAULT_LAYER_NAME@, DEFAULT_LAYER_DIR@)],
    {
        let mut layers = string_map_new();
        string_map_insert(
            &mut layers,
            String::from_str(DEFAULT_LAYER_NAME),
            String::from_str(DEFAULT_LAYER_DIR),
        );
        let ret = LayerContents { layers };
        assert(ret@ =~= seq![(DEFAULT_LAYER_NAME@, DEFAULT_LAYER_DIR@)]);
        ret
    }
}

} // verus!
