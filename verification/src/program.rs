//! A module is one parsed source file; a program is an ordered list of
//! modules.

use vstd::prelude::*;

use crate::item::Item;
use crate::item::ItemV;
use crate::item::view_items;
use crate::token::view_strings;

verus! {

/// One parsed source file: its path (as extension-free path segments,
/// used only to derive qualified-name prefixes and output file names) and
/// its top-level items.
#[derive(Debug)]
pub struct Module {
    pub path: Vec<String>,
    pub items: Vec<Item>,
}

/// The value of a `Module`.
#[verifier::ext_equal]
pub ghost struct ModuleV {
    pub path: Seq<Seq<char>>,
    pub items: Seq<ItemV>,
}

impl View for Module {
    type V = ModuleV;

    open spec fn view(&self) -> ModuleV {
        ModuleV { path: view_strings(self.path@), items: view_items(self.items@) }
    }
}

/// An entire compilation unit.
pub type Program = Vec<Module>;

/// The value of a whole program.
pub open spec fn program_view(program: Program) -> Seq<ModuleV> {
    Seq::new(program@.len(), |i: int| program@[i].view())
}

} // verus!
