//! The persisted entity and the request payload, together with their
//! mathematical views.

use vstd::prelude::*;

verus! {

/// A record of the items table as it appears on the wire.
///
/// `id` and `created_at` are assigned by the storage layer; a value that has
/// not been persisted yet carries `None` in those fields.  `created_at` is
/// the creation instant already rendered as `YYYY-MM-DD HH:MM:SS`.
pub struct Item {
    pub id: Option<i32>,
    pub name: String,
    pub description: Option<String>,
    pub created_at: Option<String>,
}

/// The body of a create request: a required `name` and an optional
/// `description`.  The server assigns `id` and `created_at`; the payload has
/// no field for them.
pub struct CreateItem {
    pub name: String,
    pub description: Option<String>,
}

/// Mathematical view of an [`Item`]: the same fields with every string
/// replaced by its character sequence.
#[verifier::ext_equal]
pub struct ItemModel {
    pub id: Option<i32>,
    pub name: Seq<char>,
    pub description: Option<Seq<char>>,
    pub created_at: Option<Seq<char>>,
}

impl View for Item {
    type V = ItemModel;

    open spec fn view(&self) -> ItemModel {
        ItemModel {
            id: self.id,
            name: self.name@,
            description: match self.description {
                Some(d) => Some(d@),
                None => None,
            },
            created_at: match self.created_at {
                Some(c) => Some(c@),
                None => None,
            },
        }
    }
}

/// Mathematical view of a [`CreateItem`].
#[verifier::ext_equal]
pub struct CreateItemModel {
    pub name: Seq<char>,
    pub description: Option<Seq<char>>,
}

impl View for CreateItem {
    type V = CreateItemModel;

    open spec fn view(&self) -> CreateItemModel {
        CreateItemModel {
            name: self.name@,
            description: match self.description {
                Some(d) => Some(d@),
                None => None,
            },
        }
    }
}

impl Item {
    /// A field-for-field copy: the result has the same view as `self`.
    pub fn duplicate(&self) -> (r: Item)
        ensures
            r@ == self@,
    {
        let description = match &self.description {
            Some(d) => Some(d.clone()),
            None => None,
        };
        let created_at = match &self.created_at {
            Some(c) => Some(c.clone()),
            None => None,
        };
        let r = Item { id: self.id, name: self.name.clone(), description, created_at };
        proof {
            assert(r@ =~= self@);
        }
        r
    }
}

} // verus!
