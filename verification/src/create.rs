//! The payload of `fp create`: a description of the resource to create, read
//! from a YAML file.
use vstd::prelude::*;

verus! {

/// A file describing what to create.
pub struct CreatePayload {
    create: Create,
}

/// What can be created.
pub enum Create {
    Notebook(NewNotebook),
}

/// A notebook to create.
pub struct NewNotebook {
    title: String,
}

impl NewNotebook {
    /// A notebook to create with the given title.
    pub fn new(title: String) -> (n: NewNotebook)
        ensures
            n.title()@ == title@,
    {
        NewNotebook { title }
    }

    /// The title of the notebook.
    pub closed spec fn title(&self) -> String {
        self.title
    }

    /// The title of the notebook.
    pub fn get_title(&self) -> (t: &String)
        ensures
            t@ == self.title()@,
    {
        &self.title
    }
}

impl CreatePayload {
    /// The payload describing `create`.
    pub fn new(create: Create) -> (p: CreatePayload)
        ensures
            p.create() == create,
    {
        CreatePayload { create }
    }

    /// What the payload asks to create.
    pub closed spec fn create(&self) -> Create {
        self.create
    }

    /// What the payload asks to create.
    pub fn get_create(&self) -> (c: &Create)
        ensures
            *c == self.create(),
    {
        &self.create
    }

    /// The payload as its parts.
    pub fn into_create(self) -> (c: Create)
        ensures
            c == self.create(),
    {
        self.create
    }
}

} // verus!
