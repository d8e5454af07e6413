//! TOML documents, as trees of what is read of them.

use crate::text::same_text;
use vstd::prelude::*;

verus! {

/// `toml_edit::Item`.
#[verifier::external_type_specification]
#[verifier::external_body]
pub struct ExItem(toml_edit::Item);

/// `toml_edit::TomlError`.
#[verifier::external_type_specification]
#[verifier::external_body]
pub struct ExTomlError(toml_edit::TomlError);

/// A TOML value. What is not a string, a boolean or a table is not told apart.
#[derive(Debug)]
pub enum Toml {
    Text(String),
    Flag(bool),
    /// The entries of a table, in their order.
    Table(Vec<TomlEntry>),
    Other,
}

/// An entry of a table.
#[derive(Debug)]
pub struct TomlEntry {
    pub key: String,
    pub value: Toml,
}

/// The model of a [`Toml`].
pub enum TomlView {
    Text(Seq<char>),
    Flag(bool),
    Table(Seq<(Seq<char>, TomlView)>),
    Other,
}

/// The model of a TOML value.
pub open spec fn toml_view(toml: Toml) -> TomlView
    decreases toml,
{
    match toml {
        Toml::Text(text) => TomlView::Text(text@),
        Toml::Flag(flag) => TomlView::Flag(flag),
        Toml::Table(entries) => TomlView::Table(entry_views(entries@)),
        Toml::Other => TomlView::Other,
    }
}

/// The models of the entries of a table.
pub open spec fn entry_views(entries: Seq<TomlEntry>) -> Seq<(Seq<char>, TomlView)>
    decreases entries,
{
    if entries.len() == 0 {
        seq![]
    } else {
        let last = entries[entries.len() - 1];
        entry_views(entries.subrange(0, entries.len() - 1)).push((last.key@, toml_view(last.value)))
    }
}

impl View for Toml {
    type V = TomlView;

    open spec fn view(&self) -> TomlView {
        toml_view(*self)
    }
}

/// The models of the entries of a table are the models of each.
pub proof fn entry_views_are_pointwise(entries: Seq<TomlEntry>)
    ensures
        entry_views(entries).len() == entries.len(),
        forall|i: int|
            0 <= i < entries.len() ==> #[trigger] entry_views(entries)[i] == (
                entries[i].key@,
                entries[i].value@,
            ),
    decreases entries.len(),
{
    if entries.len() > 0 {
        let rest = entries.subrange(0, entries.len() - 1);
        entry_views_are_pointwise(rest);
        assert forall|i: int| 0 <= i < entries.len() implies #[trigger] entry_views(entries)[i] == (
            entries[i].key@,
            entries[i].value@,
        ) by {
            if i < rest.len() {
                assert(entry_views(rest)[i] == (rest[i].key@, rest[i].value@));
            }
        }
    }
}

impl TomlView {
    /// The entries of a table; none where it is no table.
    pub open spec fn entries(self) -> Seq<(Seq<char>, TomlView)> {
        match self {
            TomlView::Table(entries) => entries,
            _ => seq![],
        }
    }

    /// The table has an entry with this key.
    pub open spec fn contains_key(self, key: Seq<char>) -> bool {
        exists|i: int| 0 <= i < self.entries().len() && #[trigger] self.entries()[i].0 == key
    }

    /// The first entry with this key.
    pub open spec fn index_of(self, key: Seq<char>) -> int {
        choose|i: int|
            0 <= i < self.entries().len() && #[trigger] self.entries()[i].0 == key && forall|j: int|
                0 <= j < i ==> #[trigger] self.entries()[j].0 != key
    }

    /// The value of a key of a table.
    pub open spec fn get(self, key: Seq<char>) -> Option<TomlView> {
        if self.contains_key(key) {
            Some(self.entries()[self.index_of(key)].1)
        } else {
            None
        }
    }
}

/// The model of an optional value.
pub open spec fn optional_view(toml: Option<&Toml>) -> Option<TomlView> {
    match toml {
        Some(toml) => Some(toml@),
        None => None,
    }
}

impl Toml {
    /// The value of a key, where this is a table that has it.
    pub fn get(&self, key: &str) -> (r: Option<&Toml>)
        ensures
            optional_view(r) == self@.get(key@),
    {
        match self {
            Toml::Table(entries) => {
                proof {
                    entry_views_are_pointwise(entries@);
                }
                let mut i: usize = 0;
                while i < entries.len()
                    invariant
                        i <= entries@.len(),
                        self@ == TomlView::Table(entry_views(entries@)),
                        entry_views(entries@).len() == entries@.len(),
                        forall|j: int|
                            0 <= j < entries@.len() ==> #[trigger] entry_views(entries@)[j] == (
                                entries@[j].key@,
                                entries@[j].value@,
                            ),
                        forall|j: int| 0 <= j < i ==> #[trigger] self@.entries()[j].0 != key@,
                    decreases entries@.len() - i,
                {
                    assert(self@.entries()[i as int].0 == entries@[i as int].key@);
                    if same_text(entries[i].key.as_str(), key) {
                        assert(self@.contains_key(key@));
                        assert(self@.index_of(key@) == i);
                        return Some(&entries[i].value);
                    }
                    i += 1;
                }
                None
            },
            _ => None,
        }
    }

    /// Whether this is a table that has the key.
    pub fn contains_key(&self, key: &str) -> (r: bool)
        ensures
            r == self@.contains_key(key@),
    {
        self.get(key).is_some()
    }

    /// Whether this is a table.
    pub fn is_table(&self) -> (r: bool)
        ensures
            r == self@ is Table,
    {
        match self {
            Toml::Table(_) => true,
            _ => false,
        }
    }

    /// The text of a string.
    pub fn as_text(&self) -> (r: Option<&str>)
        ensures
            r is Some <==> self@ is Text,
            r matches Some(text) ==> self@ == TomlView::Text(text@),
    {
        match self {
            Toml::Text(text) => Some(text.as_str()),
            _ => None,
        }
    }

    /// The value of a boolean.
    pub fn as_flag(&self) -> (r: Option<bool>)
        ensures
            r == match self@ {
                TomlView::Flag(flag) => Some(flag),
                _ => None,
            },
    {
        match self {
            Toml::Flag(flag) => Some(*flag),
            _ => None,
        }
    }
}

/// What a `toml_edit::Item` holds: a string, a boolean, or the entries of a table, inline or
/// not, in the order in which `TableLike::iter` comes to them. All other items are `Other`.
pub uninterp spec fn toml_value(item: toml_edit::Item) -> TomlView;

/// What `toml_edit::DocumentMut` reads in a text; nothing where it is not TOML.
pub uninterp spec fn parsed_toml(text: Seq<char>) -> Option<TomlView>;

/// `toml_edit::DocumentMut::from_str` and `into_item`: the root table of the document.
#[verifier::external_body]
pub(crate) fn parse_document(text: &str) -> (r: Result<toml_edit::Item, toml_edit::TomlError>)
    ensures
        r is Ok <==> parsed_toml(text@) is Some,
        r matches Ok(item) ==> parsed_toml(text@) == Some(toml_value(item)) && toml_value(
            item,
        ) is Table,
{
    text.parse::<toml_edit::DocumentMut>().map(|document| document.into_item())
}

/// `toml_edit::Item::as_str`: the text of an item that is a string.
#[verifier::external_body]
pub(crate) fn item_text(item: &toml_edit::Item) -> (r: Option<&str>)
    ensures
        r is Some <==> toml_value(*item) is Text,
        r matches Some(text) ==> toml_value(*item) == TomlView::Text(text@),
{
    item.as_str()
}

/// `toml_edit::Item::as_bool`: the value of an item that is a boolean.
#[verifier::external_body]
pub(crate) fn item_flag(item: &toml_edit::Item) -> (r: Option<bool>)
    ensures
        r is Some <==> toml_value(*item) is Flag,
        r matches Some(flag) ==> toml_value(*item) == TomlView::Flag(flag),
{
    item.as_bool()
}

/// What an entry of a table holds.
pub open spec fn item_entry(entry: (&str, &toml_edit::Item)) -> (Seq<char>, TomlView) {
    (entry.0@, toml_value(*entry.1))
}

/// `TableLike::iter` of an item that is a table, inline or not: its entries, in order.
#[verifier::external_body]
pub(crate) fn item_entries(item: &toml_edit::Item) -> (r: Option<Vec<(&str, &toml_edit::Item)>>)
    ensures
        r is Some <==> toml_value(*item) is Table,
        r matches Some(entries) ==> toml_value(*item) == TomlView::Table(
            entries@.map_values(|entry: (&str, &toml_edit::Item)| item_entry(entry)),
        ),
{
    item.as_table_like().map(|table| table.iter().collect())
}

/// What an item holds, as a tree.
fn read_item(item: &toml_edit::Item) -> (r: Toml)
    ensures
        r@ == toml_value(*item),
    decreases toml_value(*item),
{
    if let Some(text) = item_text(item) {
        return Toml::Text(text.to_owned());
    }
    if let Some(flag) = item_flag(item) {
        return Toml::Flag(flag);
    }
    match item_entries(item) {
        Some(list) => {
            let mut entries: Vec<TomlEntry> = Vec::new();
            let ghost model = toml_value(*item)->Table_0;
            let mut i: usize = 0;
            while i < list.len()
                invariant
                    i <= list@.len(),
                    toml_value(*item) == TomlView::Table(model),
                    model == list@.map_values(
                        |entry: (&str, &toml_edit::Item)| item_entry(entry),
                    ),
                    entries@.len() == i,
                    forall|j: int|
                        0 <= j < i ==> model[j] == (
                            #[trigger] entries@[j].key@,
                            entries@[j].value@,
                        ),
                decreases list@.len() - i,
            {
                assert(model[i as int] == item_entry(list@[i as int]));
                assert(decreases_to!(toml_value(*item) => toml_value(*item)->Table_0));
                assert(decreases_to!(model => model[i as int]));
                assert(decreases_to!(model[i as int] => model[i as int].1));
                let (key, inner) = list[i];
                entries.push(TomlEntry { key: key.to_owned(), value: read_item(inner) });
                i += 1;
            }
            proof {
                entry_views_are_pointwise(entries@);
                assert(entry_views(entries@) =~= model);
            }
            Toml::Table(entries)
        },
        None => Toml::Other,
    }
}

/// A text that is not TOML.
#[derive(Debug)]
pub struct InvalidToml {
    pub error: toml_edit::TomlError,
}

/// The document that `text` holds.
pub fn parse_toml(text: &str) -> (r: Result<Toml, InvalidToml>)
    ensures
        r is Ok <==> parsed_toml(text@) is Some,
        r matches Ok(toml) ==> parsed_toml(text@) == Some(toml@) && toml@ is Table,
{
    match parse_document(text) {
        Ok(item) => Ok(read_item(&item)),
        Err(error) => Err(InvalidToml { error }),
    }
}

/// A key of a table has the value of the first entry with that key. What is no table has no keys.
pub proof fn keys_have_the_value_of_their_first_entry(
    table: &Toml,
    key: &str,
    found: Option<&Toml>,
    contained: bool,
    i: int,
)
    requires
        call_ensures(Toml::get, (table, key), found),
        call_ensures(Toml::contains_key, (table, key), contained),
    ensures
        contained <==> found is Some,
        !(*table is Table) ==> found is None,
        *table matches Toml::Table(entries) ==> {
            &&& 0 <= i < entries@.len() && entries@[i].key@ == key@ && (forall|j: int|
                0 <= j < i ==> (#[trigger] entries@[j]).key@ != key@) ==> (found matches Some(value)
                && value@ == entries@[i].value@)
            &&& (forall|j: int| 0 <= j < entries@.len() ==> (#[trigger] entries@[j]).key@ != key@)
                ==> found is None
        },
{
    if let Toml::Table(entries) = *table {
        entry_views_are_pointwise(entries@);
        let views = entry_views(entries@);
        assert(table@.entries() == views);
        assert forall|j: int| 0 <= j < views.len() implies (#[trigger] views[j]).0
            == entries@[j].key@ by {}
        if 0 <= i < entries@.len() && entries@[i].key@ == key@ && (forall|j: int|
            0 <= j < i ==> (#[trigger] entries@[j]).key@ != key@) {
            assert(views[i].0 == key@);
            assert(table@.contains_key(key@));
            let k = table@.index_of(key@);
            assert forall|j: int| 0 <= j < i implies #[trigger] table@.entries()[j].0 != key@ by {
                assert(entries@[j].key@ != key@);
            }
            assert(0 <= k < views.len() && views[k].0 == key@ && forall|j: int|
                0 <= j < k ==> #[trigger] table@.entries()[j].0 != key@) by {
                assert(0 <= i < table@.entries().len() && table@.entries()[i].0 == key@ && forall|
                    j: int,
                |
                    0 <= j < i ==> #[trigger] table@.entries()[j].0 != key@);
            }
            assert(k == i) by {
                if k < i {
                    assert(entries@[k].key@ != key@);
                } else if i < k {
                    assert(table@.entries()[i].0 != key@);
                }
            }
        }
    }
}

/// A value is read as what it is.
pub proof fn values_are_read_as_what_they_are(
    toml: &Toml,
    table: bool,
    text: Option<&str>,
    flag: Option<bool>,
)
    requires
        call_ensures(Toml::is_table, (toml,), table),
        call_ensures(Toml::as_text, (toml,), text),
        call_ensures(Toml::as_flag, (toml,), flag),
    ensures
        table <==> *toml is Table,
        text is Some <==> *toml is Text,
        *toml matches Toml::Text(string) ==> text->0@ == string@,
        flag is Some <==> *toml is Flag,
        *toml matches Toml::Flag(value) ==> flag == Some(value),
{
}

/// A text that is TOML is read as the table that it holds; another one is refused.
pub proof fn documents_are_read(text: &str, r: Result<Toml, InvalidToml>)
    requires
        call_ensures(parse_toml, (text,), r),
    ensures
        parsed_toml(text@) is None ==> r is Err,
        parsed_toml(text@) matches Some(document) ==> (r matches Ok(toml) && toml@ == document
            && toml is Table),
{
}

}
