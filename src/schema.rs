use vstd::prelude::*;
use crate::error::opt_view;

verus! {

/// The version stamped on every schema that is saved.
pub const SCHEMA_VERSION: &'static str = "1.0";

/// One reading of a document: when it was started and when finished.
#[derive(Clone, Debug, PartialEq, Eq)]
pub struct DateRead {
    pub started: Option<String>,
    pub finished: Option<String>,
}

/// Model of a `DateRead`.
pub struct DatePair {
    pub started: Option<Seq<char>>,
    pub finished: Option<Seq<char>>,
}

impl View for DateRead {
    type V = DatePair;

    open spec fn view(&self) -> DatePair {
        DatePair { started: opt_view(self.started), finished: opt_view(self.finished) }
    }
}

/// Model of a list of `DateRead`.
pub open spec fn pairs_view(v: Seq<DateRead>) -> Seq<DatePair> {
    Seq::new(v.len(), |i: int| v[i]@)
}

/// Value of one attribute of a document.
///
/// A number is carried as its decimal text, as it is bound to the cache's
/// numeric column and read back from it.
#[derive(Clone, Debug, PartialEq, Eq)]
pub enum AttrValue {
    Text(String),
    TextCollection(Vec<String>),
    DatesPairCollection(Vec<DateRead>),
    Number(String),
    Date(String),
    DateCollection(Vec<String>),
    Image(String),
}

/// Model of an `AttrValue`.
pub enum Attr {
    Text(Seq<char>),
    TextCollection(Seq<Seq<char>>),
    DatesPairCollection(Seq<DatePair>),
    Number(Seq<char>),
    Date(Seq<char>),
    DateCollection(Seq<Seq<char>>),
    Image(Seq<char>),
}

impl View for AttrValue {
    type V = Attr;

    open spec fn view(&self) -> Attr {
        match self {
            AttrValue::Text(s) => Attr::Text(s@),
            AttrValue::TextCollection(v) => Attr::TextCollection(v.deep_view()),
            AttrValue::DatesPairCollection(v) => Attr::DatesPairCollection(pairs_view(v@)),
            AttrValue::Number(s) => Attr::Number(s@),
            AttrValue::Date(s) => Attr::Date(s@),
            AttrValue::DateCollection(v) => Attr::DateCollection(v.deep_view()),
            AttrValue::Image(s) => Attr::Image(s@),
        }
    }
}

/// Decimal text of the number zero, the default of a numeric attribute.
pub open spec fn zero_text() -> Seq<char> {
    seq!['0']
}

impl AttrValue {
    pub fn default_text() -> (r: Self)
        ensures
            r@ == Attr::Text(Seq::empty()),
    {
        AttrValue::Text(String::new())
    }

    pub fn default_text_collection() -> (r: Self)
        ensures
            r@ == Attr::TextCollection(Seq::empty()),
    {
        let v: Vec<String> = Vec::new();
        proof {
            assert(v.deep_view() =~= Seq::<Seq<char>>::empty());
        }
        AttrValue::TextCollection(v)
    }

    pub fn default_dates_pair_collection() -> (r: Self)
        ensures
            r@ == Attr::DatesPairCollection(Seq::empty()),
    {
        let v: Vec<DateRead> = Vec::new();
        proof {
            assert(pairs_view(v@) =~= Seq::<DatePair>::empty());
        }
        AttrValue::DatesPairCollection(v)
    }

    pub fn default_number() -> (r: Self)
        ensures
            r@ == Attr::Number(zero_text()),
    {
        let mut s = String::new();
        s.append("0");
        proof {
            reveal_strlit("0");
            assert(s@ =~= zero_text());
        }
        AttrValue::Number(s)
    }

    pub fn default_date() -> (r: Self)
        ensures
            r@ == Attr::Date(Seq::empty()),
    {
        AttrValue::Date(String::new())
    }

    pub fn default_date_collection() -> (r: Self)
        ensures
            r@ == Attr::DateCollection(Seq::empty()),
    {
        let v: Vec<String> = Vec::new();
        proof {
            assert(v.deep_view() =~= Seq::<Seq<char>>::empty());
        }
        AttrValue::DateCollection(v)
    }

    pub fn default_image() -> (r: Self)
        ensures
            r@ == Attr::Image(Seq::empty()),
    {
        AttrValue::Image(String::new())
    }
}


/// Size of the input widget of an attribute.
#[derive(Clone, Copy, Debug, PartialEq, Eq, Structural)]
pub enum InputSize {
    S,
    M,
    L,
}

#[derive(Clone, Copy, Debug, PartialEq, Eq, Structural)]
pub enum TextFont {
    Serif,
    Sans,
}

#[derive(Clone, Copy, Debug, PartialEq, Eq, Structural)]
pub enum TextWeight {
    Light,
    Normal,
    Bold,
    Black,
}

#[derive(Clone, Copy, Debug, PartialEq, Eq, Structural)]
pub enum TextTheme {
    Hidden,
    Default,
}

#[derive(Clone, Copy, Debug, PartialEq, Eq, Structural)]
pub enum NumberStyle {
    Default,
    Stars,
    Slider,
}

/// Tag that tells text settings apart from the other settings kinds.
#[derive(Clone, Copy, Debug, PartialEq, Eq, Structural)]
pub enum SettingsTypeText {
    Text,
}

impl Default for SettingsTypeText {
    fn default() -> (r: Self)
        ensures
            r == SettingsTypeText::Text,
    {
        SettingsTypeText::Text
    }
}

/// Tag that tells number settings apart from the other settings kinds.
#[derive(Clone, Copy, Debug, PartialEq, Eq, Structural)]
pub enum SettingsTypeNumber {
    Num,
}

impl Default for SettingsTypeNumber {
    fn default() -> (r: Self)
        ensures
            r == SettingsTypeNumber::Num,
    {
        SettingsTypeNumber::Num
    }
}

/// Tag that tells text-collection settings apart from the other settings kinds.
#[derive(Clone, Copy, Debug, PartialEq, Eq, Structural)]
pub enum SettingsTypeTextCollection {
    TextCollection,
}

impl Default for SettingsTypeTextCollection {
    fn default() -> (r: Self)
        ensures
            r == SettingsTypeTextCollection::TextCollection,
    {
        SettingsTypeTextCollection::TextCollection
    }
}

/// Display settings of a text attribute; the cache does not read them.
#[derive(Clone, Debug)]
pub struct TextSettings {
    pub settings_type: SettingsTypeText,
    pub display_name: Option<String>,
    pub size: Option<InputSize>,
    pub font: Option<TextFont>,
    pub weight: Option<TextWeight>,
    pub theme: Option<TextTheme>,
    pub is_multiline: Option<bool>,
}

impl Default for TextSettings {
    fn default() -> (r: Self)
        ensures
            r.settings_type == SettingsTypeText::Text,
            r.display_name is None,
            r.size is None,
            r.font is None,
            r.weight is None,
            r.theme is None,
            r.is_multiline is None,
    {
        TextSettings {
            settings_type: SettingsTypeText::Text,
            display_name: None,
            size: None,
            font: None,
            weight: None,
            theme: None,
            is_multiline: None,
        }
    }
}

/// Settings of a numeric attribute. Bounds are kept as decimal text;
/// `decimal_places` decides between integer and fractional values.
#[derive(Clone, Debug)]
pub struct NumberSettings {
    pub settings_type: SettingsTypeNumber,
    pub display_name: Option<String>,
    pub size: Option<InputSize>,
    pub min: Option<String>,
    pub max: Option<String>,
    pub style: Option<NumberStyle>,
    pub decimal_places: Option<u8>,
}

impl Default for NumberSettings {
    fn default() -> (r: Self)
        ensures
            r.settings_type == SettingsTypeNumber::Num,
            r.display_name is None,
            r.size is None,
            r.min is None,
            r.max is None,
            r.style is None,
            r.decimal_places is None,
    {
        NumberSettings {
            settings_type: SettingsTypeNumber::Num,
            display_name: None,
            size: None,
            min: None,
            max: None,
            style: None,
            decimal_places: None,
        }
    }
}

/// Display settings of a text-collection attribute.
#[derive(Clone, Debug)]
pub struct TextCollectionSettings {
    pub settings_type: SettingsTypeTextCollection,
    pub display_name: Option<String>,
    pub size: Option<InputSize>,
    pub font: Option<TextFont>,
    pub weight: Option<TextWeight>,
    pub prefix: Option<String>,
}

impl Default for TextCollectionSettings {
    fn default() -> (r: Self)
        ensures
            r.settings_type == SettingsTypeTextCollection::TextCollection,
            r.display_name is None,
            r.size is None,
            r.font is None,
            r.weight is None,
            r.prefix is None,
    {
        TextCollectionSettings {
            settings_type: SettingsTypeTextCollection::TextCollection,
            display_name: None,
            size: None,
            font: None,
            weight: None,
            prefix: None,
        }
    }
}

/// Settings of the kinds that have none.
#[derive(Clone, Copy, Debug)]
pub struct EmptySettings {}

/// Declared type of an attribute, with its display settings.
#[derive(Clone, Debug)]
pub enum SchemaAttrKey {
    Text(TextSettings),
    TextCollection(TextCollectionSettings),
    Number(NumberSettings),
    Date(EmptySettings),
    DateCollection(EmptySettings),
    DatesPairCollection(EmptySettings),
    Image(EmptySettings),
}

/// What the cache reads of a declared type.
pub enum AttrKind {
    Text,
    TextCollection,
    Number { decimal_places: Option<u8> },
    Date,
    DateCollection,
    DatesPairCollection,
    Image,
}

impl AttrKind {
    /// Stored in a column of the files table.
    pub open spec fn is_scalar(self) -> bool {
        self is Text || self is Number || self is Date || self is Image
    }

    /// Stored in a side table with a single `value` column.
    pub open spec fn is_value_collection(self) -> bool {
        self is TextCollection || self is DateCollection
    }

    /// Stored in a side table with `started` and `finished` columns.
    pub open spec fn is_pair_collection(self) -> bool {
        self is DatesPairCollection
    }
}

impl View for SchemaAttrKey {
    type V = AttrKind;

    open spec fn view(&self) -> AttrKind {
        match self {
            SchemaAttrKey::Text(_) => AttrKind::Text,
            SchemaAttrKey::TextCollection(_) => AttrKind::TextCollection,
            SchemaAttrKey::Number(n) => AttrKind::Number { decimal_places: n.decimal_places },
            SchemaAttrKey::Date(_) => AttrKind::Date,
            SchemaAttrKey::DateCollection(_) => AttrKind::DateCollection,
            SchemaAttrKey::DatesPairCollection(_) => AttrKind::DatesPairCollection,
            SchemaAttrKey::Image(_) => AttrKind::Image,
        }
    }
}

/// One declared attribute: its name (a column identifier) and type.
#[derive(Clone, Debug)]
pub struct SchemaItem {
    pub name: String,
    pub value: SchemaAttrKey,
}

/// Model of a `SchemaItem`.
pub struct ItemSpec {
    pub name: Seq<char>,
    pub kind: AttrKind,
}

impl View for SchemaItem {
    type V = ItemSpec;

    open spec fn view(&self) -> ItemSpec {
        ItemSpec { name: self.name@, kind: self.value@ }
    }
}

/// Model of a list of schema items.
pub open spec fn items_view(v: Seq<SchemaItem>) -> Seq<ItemSpec> {
    Seq::new(v.len(), |i: int| v[i]@)
}

/// No two items of the list share a name.
pub open spec fn unique_names(items: Seq<ItemSpec>) -> bool {
    forall|i: int, j: int|
        0 <= i < items.len() && 0 <= j < items.len() && i != j ==> items[i].name != items[j].name
}

/// The schema of one folder subtree.
#[derive(Clone, Debug)]
pub struct Schema {
    pub name: String,
    pub version: String,
    pub icon: Option<String>,
    pub items: Vec<SchemaItem>,
    pub internal_path: String,
    /// Prefix of the schema's table names; the basename of its folder.
    pub internal_name: String,
}

/// Model of a `Schema`.
pub struct SchemaView {
    pub name: Seq<char>,
    pub version: Seq<char>,
    pub icon: Option<Seq<char>>,
    pub items: Seq<ItemSpec>,
    pub internal_path: Seq<char>,
    pub internal_name: Seq<char>,
}

impl View for Schema {
    type V = SchemaView;

    open spec fn view(&self) -> SchemaView {
        SchemaView {
            name: self.name@,
            version: self.version@,
            icon: opt_view(self.icon),
            items: items_view(self.items@),
            internal_path: self.internal_path@,
            internal_name: self.internal_name@,
        }
    }
}

/// Whether the items' names are pairwise distinct.
pub fn has_unique_names(items: &Vec<SchemaItem>) -> (r: bool)
    ensures
        r == unique_names(items_view(items@)),
{
    let n = items.len();
    let mut i: usize = 0;
    while i < n
        invariant
            n == items@.len(),
            i <= n,
            forall|a: int, b: int|
                0 <= a < i && 0 <= b < n && a != b ==> items@[a]@.name != items@[b]@.name,
        decreases n - i,
    {
        let mut j: usize = 0;
        while j < n
            invariant
                n == items@.len(),
                i < n,
                j <= n,
                forall|a: int, b: int|
                    0 <= a < i && 0 <= b < n && a != b ==> items@[a]@.name != items@[b]@.name,
                forall|b: int| 0 <= b < j && i != b ==> items@[i as int]@.name != items@[b]@.name,
            decreases n - j,
        {
            if i != j && items[i].name == items[j].name {
                assert(items_view(items@)[i as int].name == items_view(items@)[j as int].name);
                return false;
            }
            j += 1;
        }
        i += 1;
    }
    proof {
        let v = items_view(items@);
        assert forall|a: int, b: int|
            0 <= a < v.len() && 0 <= b < v.len() && a != b implies v[a].name != v[b].name by {
            assert(items@[a]@.name != items@[b]@.name);
        }
    }
    true
}

} // verus!
