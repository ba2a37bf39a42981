use vstd::prelude::*;
use crate::schema::{
    items_view, AttrKind, EmptySettings, InputSize, ItemSpec, NumberSettings, NumberStyle,
    SchemaAttrKey, SchemaItem, TextCollectionSettings, TextFont, TextSettings, TextTheme,
    TextWeight,
};

verus! {

fn item(name: &str, value: SchemaAttrKey) -> (r: SchemaItem)
    ensures
        r@ == (ItemSpec { name: name@, kind: value@ }),
{
    SchemaItem { name: String::from_str(name), value }
}

fn text_setting(s: &str) -> (r: Option<String>)
    ensures
        r matches Some(t) && t@ == s@,
{
    Some(String::from_str(s))
}

/// Items of the schema offered for a book collection.
pub open spec fn book_items() -> Seq<ItemSpec> {
    seq![
        ItemSpec { name: "title"@, kind: AttrKind::Text },
        ItemSpec { name: "author"@, kind: AttrKind::Text },
        ItemSpec { name: "year"@, kind: AttrKind::Number { decimal_places: None } },
        ItemSpec { name: "myRating"@, kind: AttrKind::Number { decimal_places: Some(1) } },
        ItemSpec { name: "read"@, kind: AttrKind::DatesPairCollection },
        ItemSpec { name: "tags"@, kind: AttrKind::TextCollection },
        ItemSpec { name: "cover"@, kind: AttrKind::Image },
        ItemSpec { name: "ISBN13"@, kind: AttrKind::Number { decimal_places: None } },
    ]
}

/// Items of the schema offered for a movie collection.
pub open spec fn movie_items() -> Seq<ItemSpec> {
    seq![
        ItemSpec { name: "title"@, kind: AttrKind::Text },
        ItemSpec { name: "director"@, kind: AttrKind::Text },
        ItemSpec { name: "premiere"@, kind: AttrKind::Date },
        ItemSpec { name: "myRating"@, kind: AttrKind::Number { decimal_places: None } },
        ItemSpec { name: "watched"@, kind: AttrKind::DateCollection },
        ItemSpec { name: "tags"@, kind: AttrKind::TextCollection },
        ItemSpec { name: "poster"@, kind: AttrKind::Image },
    ]
}

/// The schema items offered for a book collection.
pub fn default_book_schema() -> (r: Vec<SchemaItem>)
    ensures
        items_view(r@) == book_items(),
{
    let mut v: Vec<SchemaItem> = Vec::new();
    let mut title = TextSettings::default();
    title.size = Some(InputSize::L);
    title.font = Some(TextFont::Serif);
    title.is_multiline = Some(true);
    title.theme = Some(TextTheme::Hidden);
    v.push(item("title", SchemaAttrKey::Text(title)));
    let mut author = TextSettings::default();
    author.size = Some(InputSize::M);
    author.weight = Some(TextWeight::Bold);
    author.theme = Some(TextTheme::Hidden);
    v.push(item("author", SchemaAttrKey::Text(author)));
    let mut year = NumberSettings::default();
    year.size = Some(InputSize::S);
    year.min = text_setting("0");
    v.push(item("year", SchemaAttrKey::Number(year)));
    let mut rating = NumberSettings::default();
    rating.min = text_setting("0");
    rating.max = text_setting("5");
    rating.decimal_places = Some(1);
    rating.style = Some(NumberStyle::Stars);
    v.push(item("myRating", SchemaAttrKey::Number(rating)));
    v.push(item("read", SchemaAttrKey::DatesPairCollection(EmptySettings {})));
    let mut tags = TextCollectionSettings::default();
    tags.prefix = text_setting("#");
    v.push(item("tags", SchemaAttrKey::TextCollection(tags)));
    v.push(item("cover", SchemaAttrKey::Image(EmptySettings {})));
    let mut isbn = NumberSettings::default();
    isbn.size = Some(InputSize::S);
    isbn.min = text_setting("0");
    v.push(item("ISBN13", SchemaAttrKey::Number(isbn)));
    proof {
        assert(items_view(v@) =~= book_items());
    }
    v
}

/// The schema items offered for a movie collection.
pub fn default_movie_schema() -> (r: Vec<SchemaItem>)
    ensures
        items_view(r@) == movie_items(),
{
    let mut v: Vec<SchemaItem> = Vec::new();
    let mut title = TextSettings::default();
    title.size = Some(InputSize::L);
    title.font = Some(TextFont::Serif);
    title.is_multiline = Some(true);
    title.theme = Some(TextTheme::Hidden);
    v.push(item("title", SchemaAttrKey::Text(title)));
    let mut director = TextSettings::default();
    director.size = Some(InputSize::M);
    director.weight = Some(TextWeight::Bold);
    director.theme = Some(TextTheme::Hidden);
    v.push(item("director", SchemaAttrKey::Text(director)));
    v.push(item("premiere", SchemaAttrKey::Date(EmptySettings {})));
    let mut rating = NumberSettings::default();
    rating.min = text_setting("0");
    rating.max = text_setting("5");
    rating.style = Some(NumberStyle::Slider);
    v.push(item("myRating", SchemaAttrKey::Number(rating)));
    v.push(item("watched", SchemaAttrKey::DateCollection(EmptySettings {})));
    let mut tags = TextCollectionSettings::default();
    tags.prefix = text_setting("#");
    v.push(item("tags", SchemaAttrKey::TextCollection(tags)));
    v.push(item("poster", SchemaAttrKey::Image(EmptySettings {})));
    proof {
        assert(items_view(v@) =~= movie_items());
    }
    v
}

/// A schema offered when a folder is set up.
#[derive(Clone, Debug)]
pub struct DefaultSchema {
    pub name: String,
    pub description: String,
    pub schema_items: Vec<SchemaItem>,
}

/// The schemas offered when a folder is set up: an empty one, one for
/// books and one for movies.
pub fn get_default_schemas() -> (r: Vec<DefaultSchema>)
    ensures
        r@.len() == 3,
        r@[0].name@ == "Empty"@ && items_view(r@[0].schema_items@) == Seq::<ItemSpec>::empty(),
        r@[1].name@ == "Books"@ && items_view(r@[1].schema_items@) == book_items(),
        r@[2].name@ == "Movies"@ && items_view(r@[2].schema_items@) == movie_items(),
{
    let mut v: Vec<DefaultSchema> = Vec::new();
    let empty: Vec<SchemaItem> = Vec::new();
    proof {
        assert(items_view(empty@) =~= Seq::<ItemSpec>::empty());
    }
    v.push(
        DefaultSchema {
            name: String::from_str("Empty"),
            description: String::from_str("Empty schema without any fields"),
            schema_items: empty,
        },
    );
    v.push(
        DefaultSchema {
            name: String::from_str("Books"),
            description: String::from_str("Default schema for books, inspired by Goodreads"),
            schema_items: default_book_schema(),
        },
    );
    v.push(
        DefaultSchema {
            name: String::from_str("Movies"),
            description: String::from_str("Default schema for movies, inspired by Letterboxd"),
            schema_items: default_movie_schema(),
        },
    );
    v
}

} // verus!
