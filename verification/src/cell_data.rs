//! The selection of a cell: the identifiers it holds, their resolution
//! against a field's catalog of options, and the form handed to clients.

use vstd::prelude::*;
use vstd::std_specs::convert::FromSpecImpl;
use crate::select_option::SelectOption;

verus! {

/// The identifiers of the options selected in one cell, in the order of
/// selection. An identifier may name an option that its field no longer has.
#[derive(Debug)]
pub struct SelectOptionIds(pub Vec<String>);

impl View for SelectOptionIds {
    type V = Seq<Seq<char>>;

    open spec fn view(&self) -> Seq<Seq<char>> {
        Seq::new(self.0@.len(), |i: int| self.0@[i]@)
    }
}

/// The options selected in one cell, in the order of selection.
#[derive(Debug)]
pub struct SelectOptionCellData {
    pub select_options: Vec<SelectOption>,
}

/// An option as clients see it: the colour is given by its code.
#[derive(Debug)]
pub struct SelectOptionPB {
    pub id: String,
    pub name: String,
    pub color: i64,
}

/// The options selected in one cell, as clients see them.
#[derive(Debug)]
pub struct SelectOptionCellDataPB {
    pub select_options: Vec<SelectOptionPB>,
}

/// The record that shows an option to clients: the same identifier and
/// name, and the code of the colour.
pub open spec fn record_of(option: SelectOption) -> SelectOptionPB {
    SelectOptionPB { id: option.id, name: option.name, color: option.color.code() }
}

impl FromSpecImpl<SelectOption> for SelectOptionPB {
    open spec fn obeys_from_spec() -> bool {
        true
    }

    open spec fn from_spec(option: SelectOption) -> Self {
        record_of(option)
    }
}

impl From<SelectOption> for SelectOptionPB {
    /// Keeps the identifier and the name, and encodes the colour.
    fn from(option: SelectOption) -> (record: Self) {
        SelectOptionPB { id: option.id, name: option.name, color: i64::from(option.color) }
    }
}

impl SelectOptionCellDataPB {
    /// The client's form of a resolved selection: one record for each
    /// option, in the same order.
    pub fn from_cell_data(data: SelectOptionCellData) -> (records: Self)
        ensures
            records.select_options@ == data.select_options@.map_values(
                |option: SelectOption| record_of(option),
            ),
    {
        let ghost given = data.select_options@;
        let mut records: Vec<SelectOptionPB> = Vec::new();
        for option in it: data.select_options.into_iter()
            invariant
                it.seq() == given,
                records@ == given.take(it.index() as int).map_values(
                    |option: SelectOption| record_of(option),
                ),
        {
            records.push(SelectOptionPB::from(option));
            assert(given.take(it.index() + 1).map_values(
                |option: SelectOption| record_of(option),
            ) =~= given.take(it.index() as int).map_values(
                |option: SelectOption| record_of(option),
            ).push(record_of(given[it.index() as int])));
        }
        assert(given.take(given.len() as int) =~= given);
        SelectOptionCellDataPB { select_options: records }
    }
}

/// Entry `i` of `options` is the first one with the identifier `id`.
pub open spec fn is_first_match(options: Seq<SelectOption>, i: int, id: Seq<char>) -> bool {
    &&& 0 <= i < options.len()
    &&& options[i].id@ == id
    &&& forall|j: int| 0 <= j < i ==> options[j].id@ != id
}

/// The first option of a catalog with the identifier `id`, if there is one.
pub open spec fn find_option(options: Seq<SelectOption>, id: Seq<char>) -> Option<SelectOption> {
    if exists|i: int| is_first_match(options, i, id) {
        Some(options[choose|i: int| is_first_match(options, i, id)])
    } else {
        None
    }
}

/// The options that a sequence of identifiers selects from a catalog: for
/// each identifier in turn the option it names, and nothing for an
/// identifier that names none.
pub open spec fn selected_options(ids: Seq<Seq<char>>, options: Seq<SelectOption>) -> Seq<
    SelectOption,
>
    decreases ids.len(),
{
    if ids.len() == 0 {
        Seq::empty()
    } else {
        let earlier = selected_options(ids.drop_last(), options);
        match find_option(options, ids.last()) {
            Some(option) => earlier.push(option),
            None => earlier,
        }
    }
}

/// Looks an identifier up in a catalog, from the front.
pub fn find_select_option<'a>(options: &'a [SelectOption], id: &String) -> (found: Option<
    &'a SelectOption,
>)
    ensures
        match found {
            Some(option) => find_option(options@, id@) == Some(*option),
            None => find_option(options@, id@).is_none(),
        },
{
    let mut i: usize = 0;
    while i < options.len()
        invariant
            i <= options.len(),
            forall|j: int| 0 <= j < i ==> options@[j].id@ != id@,
        decreases options.len() - i,
    {
        if options[i].id == *id {
            proof {
                let first = choose|k: int| is_first_match(options@, k, id@);
                assert(is_first_match(options@, i as int, id@));
                assert(first == i);
            }
            return Some(&options[i]);
        }
        i += 1;
    }
    None
}

/// Resolves the identifiers selected in a cell against the catalog of the
/// cell's field. The result follows the order of `ids`; an identifier that
/// the catalog lacks is passed over, and one that occurs twice is resolved
/// twice.
pub fn make_selected_options(ids: SelectOptionIds, options: &[SelectOption]) -> (selected: Vec<
    SelectOption,
>)
    ensures
        selected@ == selected_options(ids@, options@),
{
    let mut selected: Vec<SelectOption> = Vec::new();
    let mut i: usize = 0;
    while i < ids.0.len()
        invariant
            i <= ids.0.len(),
            selected@ == selected_options(ids@.take(i as int), options@),
        decreases ids.0.len() - i,
    {
        proof {
            assert(ids@.take(i + 1).drop_last() =~= ids@.take(i as int));
            assert(ids@.take(i + 1).last() == ids.0@[i as int]@);
        }
        match find_select_option(options, &ids.0[i]) {
            Some(option) => {
                selected.push(option.clone());
            },
            None => {},
        }
        i += 1;
    }
    assert(ids@.take(ids@.len() as int) =~= ids@);
    selected
}

/// No identifiers select nothing, whatever the catalog holds.
pub proof fn lemma_no_ids_select_nothing(options: Seq<SelectOption>)
    ensures
        selected_options(Seq::empty(), options) == Seq::<SelectOption>::empty(),
{
}

/// From an empty catalog nothing is selected, whatever the identifiers.
pub proof fn lemma_empty_catalog_selects_nothing(ids: Seq<Seq<char>>)
    ensures
        selected_options(ids, Seq::empty()) == Seq::<SelectOption>::empty(),
    decreases ids.len(),
{
    if ids.len() > 0 {
        lemma_empty_catalog_selects_nothing(ids.drop_last());
    }
}

/// One identifier selects the option it names, or nothing where it names
/// none.
pub proof fn lemma_one_id_selects_its_option(id: Seq<char>, options: Seq<SelectOption>)
    ensures
        selected_options(seq![id], options) == match find_option(options, id) {
            Some(option) => seq![option],
            None => Seq::<SelectOption>::empty(),
        },
{
    let ids = seq![id];
    assert(ids.drop_last() =~= Seq::<Seq<char>>::empty());
    assert(ids.last() == id);
    assert(selected_options(ids.drop_last(), options) =~= Seq::<SelectOption>::empty());
    match find_option(options, id) {
        Some(option) => {
            assert(Seq::<SelectOption>::empty().push(option) =~= seq![option]);
        },
        None => {},
    }
}

/// Identifiers are resolved one by one and in their order: what two runs
/// of identifiers select together is what the first selects, followed by
/// what the second selects.
pub proof fn lemma_selection_of_concatenation(
    front: Seq<Seq<char>>,
    back: Seq<Seq<char>>,
    options: Seq<SelectOption>,
)
    ensures
        selected_options(front + back, options) == selected_options(front, options)
            + selected_options(back, options),
    decreases back.len(),
{
    if back.len() == 0 {
        assert(front + back =~= front);
        assert(selected_options(front, options) + selected_options(back, options)
            =~= selected_options(front, options));
    } else {
        lemma_selection_of_concatenation(front, back.drop_last(), options);
        assert((front + back).drop_last() =~= front + back.drop_last());
        assert((front + back).last() == back.last());
        let earlier = selected_options(back.drop_last(), options);
        match find_option(options, back.last()) {
            Some(option) => {
                assert((selected_options(front, options) + earlier).push(option)
                    =~= selected_options(front, options) + earlier.push(option));
            },
            None => {},
        }
    }
}

/// Where the catalog has an option for every identifier, the selection has
/// one option for each identifier, at the identifier's place and with that
/// identifier: the order is kept and a repeated identifier is resolved each
/// time.
pub proof fn lemma_all_found_keeps_order(ids: Seq<Seq<char>>, options: Seq<SelectOption>)
    requires
        forall|k: int| 0 <= k < ids.len() ==> find_option(options, #[trigger] ids[k]).is_some(),
    ensures
        selected_options(ids, options).len() == ids.len(),
        forall|k: int|
            0 <= k < ids.len() ==> (#[trigger] selected_options(ids, options)[k]).id@ == ids[k],
        forall|k: int|
            0 <= k < ids.len() ==> Some(#[trigger] selected_options(ids, options)[k])
                == find_option(options, ids[k]),
    decreases ids.len(),
{
    if ids.len() > 0 {
        let earlier = ids.drop_last();
        assert forall|k: int| 0 <= k < earlier.len() implies find_option(
            options,
            #[trigger] earlier[k],
        ).is_some() by {
            assert(earlier[k] == ids[k]);
        }
        lemma_all_found_keeps_order(earlier, options);
        assert(find_option(options, ids[ids.len() - 1]).is_some());
        let first = choose|i: int| is_first_match(options, i, ids.last());
        assert(is_first_match(options, first, ids.last()));
    }
}

/// Every selected option is an option of the catalog, and no more options
/// are selected than identifiers were given.
pub proof fn lemma_selected_from_catalog(ids: Seq<Seq<char>>, options: Seq<SelectOption>)
    ensures
        selected_options(ids, options).len() <= ids.len(),
        forall|k: int|
            0 <= k < selected_options(ids, options).len() ==> options.contains(
                #[trigger] selected_options(ids, options)[k],
            ),
    decreases ids.len(),
{
    if ids.len() > 0 {
        lemma_selected_from_catalog(ids.drop_last(), options);
        if find_option(options, ids.last()).is_some() {
            let first = choose|i: int| is_first_match(options, i, ids.last());
            assert(is_first_match(options, first, ids.last()));
            assert(options[first] == find_option(options, ids.last()).unwrap());
        }
    }
}

} // verus!
