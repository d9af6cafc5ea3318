//! Select options of single-select and multi-select fields: the colour tag,
//! the option value with its attribute-map form, and the resolution of a
//! cell's selected identifiers against a field's option catalog.

pub mod any_map;
pub mod cell_data;
pub mod color;
pub mod select_option;

pub use any_map::{AnyMap, AnyValue};
pub use cell_data::{
    find_select_option, make_selected_options, SelectOptionCellData, SelectOptionCellDataPB,
    SelectOptionIds, SelectOptionPB,
};
pub use color::SelectOptionColor;
pub use select_option::SelectOption;
