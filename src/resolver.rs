use vstd::prelude::*;
use crate::datatypes::{CreateCategory, CreateCategoryModel};

verus! {

/// How the write path obtains the category id of a new snippet.
#[derive(Clone, Debug, PartialEq, Eq)]
pub enum CategoryPlan {
    /// Use this id as the foreign key; the insert fails where no category has it.
    Existing(i32),
    /// Insert a category of this name and use its new id.
    CreateNamed(String),
    /// The reference is empty: the request is refused.
    Missing,
}

/// What a `CategoryPlan` is, with the name as characters.
pub enum CategoryPlanModel {
    Existing(i32),
    CreateNamed(Seq<char>),
    Missing,
}

impl View for CategoryPlan {
    type V = CategoryPlanModel;

    open spec fn view(&self) -> CategoryPlanModel {
        match self {
            CategoryPlan::Existing(id) => CategoryPlanModel::Existing(*id),
            CategoryPlan::CreateNamed(name) => CategoryPlanModel::CreateNamed(name@),
            CategoryPlan::Missing => CategoryPlanModel::Missing,
        }
    }
}

impl CreateCategoryModel {
    /// An id wins over a name; a name alone asks for a new category.
    pub open spec fn plan(self) -> CategoryPlanModel {
        match self.id {
            Some(id) => CategoryPlanModel::Existing(id),
            None => match self.name {
                Some(name) => CategoryPlanModel::CreateNamed(name),
                None => CategoryPlanModel::Missing,
            },
        }
    }
}

/// Decides how a create request's category reference becomes a category id.
pub fn resolve_category(reference: CreateCategory) -> (r: CategoryPlan)
    ensures
        r@ == reference@.plan(),
{
    match reference.id {
        Some(id) => CategoryPlan::Existing(id),
        None => match reference.name {
            Some(name) => CategoryPlan::CreateNamed(name),
            None => CategoryPlan::Missing,
        },
    }
}

} // verus!
