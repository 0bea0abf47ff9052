use vstd::prelude::*;

verus! {

/// The mathematical value of an [`Item`]: where it lies and what it is.
pub struct ItemView {
    pub position: (i64, i64),
    pub id: Seq<char>,
}

/// An object placed in the world, told apart by its tag and its cell.
#[derive(Debug, PartialEq, Eq, Hash)]
pub struct Item {
    pub position: (i64, i64),
    pub id: String,
}

impl View for Item {
    type V = ItemView;

    open spec fn view(&self) -> ItemView {
        ItemView { position: self.position, id: self.id@ }
    }
}

impl DeepView for Item {
    type V = ItemView;

    open spec fn deep_view(&self) -> ItemView {
        self@
    }
}

impl Clone for Item {
    fn clone(&self) -> (res: Self)
        ensures
            res@ == self@,
    {
        Item { position: self.position, id: self.id.clone() }
    }
}

impl Item {
    /// The item tagged `id` on the cell `position`.
    pub fn new(id: String, position: (i64, i64)) -> (item: Item)
        ensures
            item@ == (ItemView { position, id: id@ }),
    {
        Item { id, position }
    }

    /// Whether two items carry the same tag and lie on the same cell.
    pub fn same_as(&self, other: &Item) -> (same: bool)
        ensures
            same == (self@ == other@),
    {
        self.position.0 == other.position.0 && self.position.1 == other.position.1 && self.id
            == other.id
    }
}

} // verus!
