use vstd::prelude::*;

verus! {

/// The identifier of a resource: a file system path, or a logical name.
#[derive(Debug)]
pub enum ResourceKey {
    Path(String),
    Logical(String),
}

/// The mathematical value of a key: its variant and its text.
pub enum KeyView {
    Path(Seq<char>),
    Logical(Seq<char>),
}

impl View for ResourceKey {
    type V = KeyView;

    open spec fn view(&self) -> KeyView {
        match self {
            ResourceKey::Path(p) => KeyView::Path(p@),
            ResourceKey::Logical(n) => KeyView::Logical(n@),
        }
    }
}

impl KeyView {
    pub open spec fn is_path(self) -> bool {
        self is Path
    }
}

impl ResourceKey {
    /// A key naming a file.
    pub fn from_path(path: &str) -> (r: ResourceKey)
        ensures
            r@ == KeyView::Path(path@),
    {
        ResourceKey::Path(path.to_owned())
    }

    /// A key naming a resource that lives in memory.
    pub fn logical(name: &str) -> (r: ResourceKey)
        ensures
            r@ == KeyView::Logical(name@),
    {
        ResourceKey::Logical(name.to_owned())
    }

    pub fn is_path(&self) -> (r: bool)
        ensures
            r == self@.is_path(),
    {
        match self {
            ResourceKey::Path(_) => true,
            ResourceKey::Logical(_) => false,
        }
    }

    /// Two keys name the same cache slot when their variants and texts agree.
    pub fn same(&self, other: &ResourceKey) -> (r: bool)
        ensures
            r == (self@ == other@),
    {
        match self {
            ResourceKey::Path(a) => match other {
                ResourceKey::Path(b) => *a == *b,
                ResourceKey::Logical(_) => false,
            },
            ResourceKey::Logical(a) => match other {
                ResourceKey::Logical(b) => *a == *b,
                ResourceKey::Path(_) => false,
            },
        }
    }

    pub fn duplicate(&self) -> (r: ResourceKey)
        ensures
            r@ == self@,
    {
        match self {
            ResourceKey::Path(p) => ResourceKey::Path(p.clone()),
            ResourceKey::Logical(n) => ResourceKey::Logical(n.clone()),
        }
    }
}

} // verus!
