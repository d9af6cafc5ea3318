//! The select option: an identifier, a display name and a colour tag, with
//! its form as an attribute map.

use vstd::prelude::*;
use vstd::std_specs::cmp::PartialEqSpecImpl;
use crate::any_map::{i64_value, str_value, AnyMap, AnyValueView};
use crate::color::SelectOptionColor;

verus! {

/// One choice of a single-select or multi-select field.
#[derive(Debug)]
pub struct SelectOption {
    pub id: String,
    pub name: String,
    pub color: SelectOptionColor,
}

/// What a [`SelectOption`] holds, as a mathematical value.
pub ghost struct SelectOptionView {
    pub id: Seq<char>,
    pub name: Seq<char>,
    pub color: SelectOptionColor,
}

impl View for SelectOption {
    type V = SelectOptionView;

    open spec fn view(&self) -> SelectOptionView {
        SelectOptionView { id: self.id@, name: self.name@, color: self.color }
    }
}

/// The attribute map that stores an option: its identifier under `id`, its
/// name under `name`, the code of its colour under `color`.
pub open spec fn option_to_map(option: SelectOptionView) -> Map<Seq<char>, AnyValueView> {
    Map::<Seq<char>, AnyValueView>::empty().insert("id"@, AnyValueView::Str(option.id)).insert(
        "name"@,
        AnyValueView::Str(option.name),
    ).insert("color"@, AnyValueView::Int(option.color.code()))
}

/// The string of an attribute that may be missing: empty where it is.
pub open spec fn str_or_empty(value: Option<Seq<char>>) -> Seq<char> {
    match value {
        Some(text) => text,
        None => Seq::empty(),
    }
}

/// The code of a colour attribute that may be missing: 0 where it is.
pub open spec fn code_or_zero(value: Option<i64>) -> i64 {
    match value {
        Some(code) => code,
        None => 0,
    }
}

/// The option that an attribute map stands for. A string attribute that is
/// missing or of another type reads as the empty string, a colour code that
/// is missing or of another type as 0, and a code that no colour has as the
/// default colour.
pub open spec fn option_from_map(map: Map<Seq<char>, AnyValueView>) -> SelectOptionView {
    SelectOptionView {
        id: str_or_empty(str_value(map, "id"@)),
        name: str_or_empty(str_value(map, "name"@)),
        color: SelectOptionColor::from_code(code_or_zero(i64_value(map, "color"@))),
    }
}

/// The three keys of an option's attribute map differ from one another.
pub proof fn lemma_keys_differ()
    ensures
        "id"@ != "name"@,
        "id"@ != "color"@,
        "name"@ != "color"@,
{
    reveal_strlit("id");
    reveal_strlit("name");
    reveal_strlit("color");
    assert("id"@.len() == 2);
    assert("name"@.len() == 4);
    assert("color"@.len() == 5);
}

/// Reading back the attribute map of an option gives the option.
pub proof fn lemma_map_round_trip(option: SelectOptionView)
    ensures
        option_from_map(option_to_map(option)) == option,
{
    lemma_keys_differ();
    SelectOptionColor::lemma_from_code_of_code(option.color);
}

/// Writing out the option that a map stands for reproduces all of the map,
/// where the map was itself written from an option.
pub proof fn lemma_option_round_trip(option: SelectOptionView)
    ensures
        option_to_map(option_from_map(option_to_map(option))) == option_to_map(option),
{
    lemma_map_round_trip(option);
}

/// A map reads as an option even where it is incomplete or malformed: an
/// identifier or a name that is missing or no string reads as the empty
/// string, and a colour code that is missing, no integer or outside 0 to 8
/// reads as the default colour.
pub proof fn lemma_malformed_map_reads_as_defaults(map: Map<Seq<char>, AnyValueView>)
    ensures
        str_value(map, "id"@).is_none() ==> option_from_map(map).id == Seq::<char>::empty(),
        str_value(map, "name"@).is_none() ==> option_from_map(map).name == Seq::<char>::empty(),
        i64_value(map, "color"@).is_none() ==> option_from_map(map).color
            == SelectOptionColor::Purple,
        forall|code: i64|
            i64_value(map, "color"@) == Some(code) && !(0 <= code <= 8) ==> option_from_map(
                map,
            ).color == SelectOptionColor::Purple,
        !map.contains_key("id"@) ==> str_value(map, "id"@).is_none(),
        !map.contains_key("name"@) ==> str_value(map, "name"@).is_none(),
        !map.contains_key("color"@) ==> i64_value(map, "color"@).is_none(),
{
}

/// Options whose identifiers differ are different options, whatever their
/// names and colours.
pub proof fn lemma_distinct_ids_distinct_options(first: SelectOption, second: SelectOption)
    requires
        first.id@ != second.id@,
    ensures
        first@ != second@,
{
}

impl SelectOption {
    /// An option named `name`, of the default colour, whose identifier is
    /// what `generator` hands out.
    pub fn new<G: FnOnce() -> String>(name: &str, generator: G) -> (option: Self)
        requires
            generator.requires(()),
        ensures
            generator.ensures((), option.id),
            option.name@ == name@,
            option.color == SelectOptionColor::Purple,
    {
        SelectOption { id: generator(), name: name.to_owned(), color: SelectOptionColor::Purple }
    }

    /// An option named `name`, of the colour `color`, whose identifier is
    /// what `generator` hands out.
    pub fn with_color<G: FnOnce() -> String>(
        name: &str,
        color: SelectOptionColor,
        generator: G,
    ) -> (option: Self)
        requires
            generator.requires(()),
        ensures
            generator.ensures((), option.id),
            option.name@ == name@,
            option.color == color,
    {
        SelectOption { id: generator(), name: name.to_owned(), color }
    }

    /// Reads an option from an attribute map. Never fails: what is missing
    /// or malformed reads as its default.
    pub fn from_map(map: AnyMap) -> (option: Self)
        ensures
            option@ == option_from_map(map@),
    {
        let id = match map.get_str_value("id") {
            Some(text) => text,
            None => String::new(),
        };
        let name = match map.get_str_value("name") {
            Some(text) => text,
            None => String::new(),
        };
        let code = match map.get_i64_value("color") {
            Some(code) => code,
            None => 0,
        };
        SelectOption { id, name, color: SelectOptionColor::from(code) }
    }

    /// Writes the option as an attribute map.
    pub fn to_map(self) -> (map: AnyMap)
        ensures
            map@ == option_to_map(self@),
            map.wf(),
    {
        let mut map = AnyMap::new();
        map.insert_str_value("id", self.id);
        map.insert_str_value("name", self.name);
        map.insert_i64_value("color", i64::from(self.color));
        map
    }
}

impl Default for SelectOption {
    fn default() -> (option: Self)
        ensures
            option.id@ == Seq::<char>::empty(),
            option.name@ == Seq::<char>::empty(),
            option.color == SelectOptionColor::Purple,
    {
        SelectOption { id: String::new(), name: String::new(), color: SelectOptionColor::Purple }
    }
}

impl Clone for SelectOption {
    fn clone(&self) -> (copy: Self)
        ensures
            copy == *self,
    {
        SelectOption { id: self.id.clone(), name: self.name.clone(), color: self.color }
    }
}

impl PartialEqSpecImpl for SelectOption {
    open spec fn obeys_eq_spec() -> bool {
        true
    }

    open spec fn eq_spec(&self, other: &SelectOption) -> bool {
        self@ == other@
    }
}

impl PartialEq for SelectOption {
    /// Two options are equal where their identifiers, names and colours are.
    fn eq(&self, other: &SelectOption) -> (equal: bool) {
        self.id == other.id && self.name == other.name && self.color == other.color
    }
}

impl Eq for SelectOption {

}

} // verus!
