//! Qualified names and namespaces of ActionScript 3 definitions.

use vstd::prelude::*;

verus! {

/// A namespace a definition lives in.
#[derive(Clone, Debug, PartialEq)]
pub enum Namespace {
    Namespace(String),
    Package(String),
    PackageInternal(String),
    Protected(String),
    Explicit(String),
    StaticProtected(String),
    Private(String),
    Any,
}

/// The mathematical form of a [`Namespace`].
pub ghost enum NamespaceView {
    Namespace(Seq<char>),
    Package(Seq<char>),
    PackageInternal(Seq<char>),
    Protected(Seq<char>),
    Explicit(Seq<char>),
    StaticProtected(Seq<char>),
    Private(Seq<char>),
    Any,
}

impl View for Namespace {
    type V = NamespaceView;

    open spec fn view(&self) -> NamespaceView {
        match self {
            Namespace::Namespace(s) => NamespaceView::Namespace(s@),
            Namespace::Package(s) => NamespaceView::Package(s@),
            Namespace::PackageInternal(s) => NamespaceView::PackageInternal(s@),
            Namespace::Protected(s) => NamespaceView::Protected(s@),
            Namespace::Explicit(s) => NamespaceView::Explicit(s@),
            Namespace::StaticProtected(s) => NamespaceView::StaticProtected(s@),
            Namespace::Private(s) => NamespaceView::Private(s@),
            Namespace::Any => NamespaceView::Any,
        }
    }
}

/// The URI of the AS3 builtin namespace.
pub const AS3_NAMESPACE_URI: &'static str = "http://adobe.com/AS3/2006/builtin";

impl Namespace {
    /// The public namespace: the package with the empty name.
    pub fn public() -> (r: Namespace)
        ensures
            r@ == NamespaceView::Package(Seq::empty()),
    {
        let name = String::new();
        Namespace::Package(name)
    }

    /// A package namespace.
    pub fn package(name: &str) -> (r: Namespace)
        ensures
            r@ == NamespaceView::Package(name@),
    {
        Namespace::Package(String::from_str(name))
    }

    /// The AS3 builtin namespace.
    pub fn as3_namespace() -> (r: Namespace)
        ensures
            r matches Namespace::Namespace(s) && s@ == AS3_NAMESPACE_URI@,
    {
        Namespace::Namespace(String::from_str(AS3_NAMESPACE_URI))
    }

    /// A copy of the namespace.
    pub fn duplicate(&self) -> (r: Namespace)
        ensures
            r@ == self@,
    {
        match self {
            Namespace::Namespace(s) => Namespace::Namespace(s.clone()),
            Namespace::Package(s) => Namespace::Package(s.clone()),
            Namespace::PackageInternal(s) => Namespace::PackageInternal(s.clone()),
            Namespace::Protected(s) => Namespace::Protected(s.clone()),
            Namespace::Explicit(s) => Namespace::Explicit(s.clone()),
            Namespace::StaticProtected(s) => Namespace::StaticProtected(s.clone()),
            Namespace::Private(s) => Namespace::Private(s.clone()),
            Namespace::Any => Namespace::Any,
        }
    }

    /// Whether two namespaces are the same.
    pub fn same(&self, other: &Namespace) -> (r: bool)
        ensures
            r == (self@ == other@),
    {
        match (self, other) {
            (Namespace::Namespace(a), Namespace::Namespace(b)) => *a == *b,
            (Namespace::Package(a), Namespace::Package(b)) => *a == *b,
            (Namespace::PackageInternal(a), Namespace::PackageInternal(b)) => *a == *b,
            (Namespace::Protected(a), Namespace::Protected(b)) => *a == *b,
            (Namespace::Explicit(a), Namespace::Explicit(b)) => *a == *b,
            (Namespace::StaticProtected(a), Namespace::StaticProtected(b)) => *a == *b,
            (Namespace::Private(a), Namespace::Private(b)) => *a == *b,
            (Namespace::Any, Namespace::Any) => true,
            _ => false,
        }
    }
}

/// A name qualified by the namespace it lives in.
#[derive(Clone, Debug, PartialEq)]
pub struct QName {
    ns: Namespace,
    name: String,
}

/// The mathematical form of a [`QName`].
pub ghost struct QNameView {
    pub ns: NamespaceView,
    pub name: Seq<char>,
}

impl View for QName {
    type V = QNameView;

    closed spec fn view(&self) -> QNameView {
        QNameView { ns: self.ns@, name: self.name@ }
    }
}

impl QName {
    /// A name in a namespace.
    pub fn new(ns: Namespace, name: &str) -> (r: QName)
        ensures
            r@ == (QNameView { ns: ns@, name: name@ }),
    {
        QName { ns, name: String::from_str(name) }
    }

    /// A name in the public namespace, as used for dynamic properties.
    pub fn dynamic_name(local_name: &str) -> (r: QName)
        ensures
            r@ == (QNameView { ns: NamespaceView::Package(Seq::empty()), name: local_name@ }),
    {
        QName::new(Namespace::public(), local_name)
    }

    /// The namespace of the name.
    pub fn namespace(&self) -> (r: &Namespace)
        ensures
            r@ == self@.ns,
    {
        &self.ns
    }

    /// The local part of the name.
    pub fn local_name(&self) -> (r: &String)
        ensures
            r@ == self@.name,
    {
        &self.name
    }

    /// A copy of the name.
    pub fn duplicate(&self) -> (r: QName)
        ensures
            r@ == self@,
    {
        QName { ns: self.ns.duplicate(), name: self.name.clone() }
    }

    /// Whether two names are the same.
    pub fn same(&self, other: &QName) -> (r: bool)
        ensures
            r == (self@ == other@),
    {
        self.ns.same(&other.ns) && self.name == other.name
    }
}

/// A name that may be looked up in any of a set of namespaces.
#[derive(Clone, Debug, PartialEq)]
pub struct Multiname {
    ns: Vec<Namespace>,
    name: Option<String>,
}

/// The mathematical form of a [`Multiname`].
pub ghost struct MultinameView {
    pub ns: Seq<NamespaceView>,
    pub name: Option<Seq<char>>,
}

impl View for Multiname {
    type V = MultinameView;

    closed spec fn view(&self) -> MultinameView {
        MultinameView {
            ns: self.ns@.map_values(|n: Namespace| n@),
            name: match self.name {
                Some(s) => Some(s@),
                None => None,
            },
        }
    }
}

impl Multiname {
    /// The multiname naming exactly a qualified name.
    pub fn from_qname(name: &QName) -> (r: Multiname)
        ensures
            r@ == (MultinameView { ns: seq![name@.ns], name: Some(name@.name) }),
    {
        let mut ns: Vec<Namespace> = Vec::new();
        ns.push(name.namespace().duplicate());
        let r = Multiname { ns, name: Some(name.local_name().clone()) };
        proof {
            assert(r.ns@.map_values(|n: Namespace| n@) =~= seq![name@.ns]);
        }
        r
    }

    /// A copy of the multiname.
    pub fn duplicate(&self) -> (r: Multiname)
        ensures
            r@ == self@,
    {
        let mut ns: Vec<Namespace> = Vec::new();
        let mut i: usize = 0;
        while i < self.ns.len()
            invariant
                i <= self.ns@.len(),
                ns@.len() == i,
                forall|j: int| 0 <= j < i ==> #[trigger] ns@[j]@ == self.ns@[j]@,
            decreases self.ns.len() - i,
        {
            ns.push(self.ns[i].duplicate());
            i = i + 1;
        }
        let name = match &self.name {
            Some(s) => Some(s.clone()),
            None => None,
        };
        let r = Multiname { ns, name };
        proof {
            assert(r.ns@.map_values(|n: Namespace| n@) =~= self.ns@.map_values(|n: Namespace| n@));
        }
        r
    }
}

} // verus!
