//! The grammar that drives the encoder: interfaces, enumerations and the
//! types of their fields.
use vstd::prelude::*;

verus! {

/// The type of a field, as declared by the grammar.
pub enum Type {
    /// A list of values of the given type.
    Array(Box<Type>),
    /// An anonymous structure.
    Obj(Structure),
    /// A string among those of the named enumeration.
    Enum(String),
    /// A node implementing one of the named interfaces (or `null`, where
    /// `or_null` holds).
    Interfaces { names: Vec<String>, or_null: bool },
    Boolean,
    String,
    Number,
}

/// A named, typed field.
pub struct Field {
    pub name: String,
    pub type_: Type,
}

/// A sequence of fields.
pub struct Structure {
    pub fields: Vec<Field>,
}

/// An enumeration of strings.
pub struct Enum {
    pub name: String,
    pub strings: Vec<String>,
}

/// An interface: a kind of node, with its fields and the names of the
/// interfaces that it refines.
pub struct Interface {
    pub name: String,
    pub ancestors: Vec<String>,
    pub contents: Structure,
}

/// A grammar.
pub struct Syntax {
    pub interfaces: Vec<Interface>,
    pub enums: Vec<Enum>,
}

impl Field {
    pub fn name(&self) -> (r: &String)
        ensures
            r == &self.name,
    {
        &self.name
    }

    pub fn type_(&self) -> (r: &Type)
        ensures
            r == &self.type_,
    {
        &self.type_
    }
}

impl Structure {
    pub fn fields(&self) -> (r: &Vec<Field>)
        ensures
            r == &self.fields,
    {
        &self.fields
    }
}

impl Enum {
    pub fn strings(&self) -> (r: &Vec<String>)
        ensures
            r == &self.strings,
    {
        &self.strings
    }
}

impl Interface {
    pub fn name(&self) -> (r: &String)
        ensures
            r == &self.name,
    {
        &self.name
    }

    pub fn contents(&self) -> (r: &Structure)
        ensures
            r == &self.contents,
    {
        &self.contents
    }
}

/// `i` is the position of the first enumeration named `name`.
pub open spec fn is_first_enum(enums: Seq<Enum>, name: Seq<char>, i: int) -> bool {
    &&& 0 <= i < enums.len()
    &&& enums[i].name@ == name
    &&& forall|j: int| 0 <= j < i ==> (#[trigger] enums[j]).name@ != name
}

/// `i` is the position of the first interface named `name`.
pub open spec fn is_first_interface(interfaces: Seq<Interface>, name: Seq<char>, i: int) -> bool {
    &&& 0 <= i < interfaces.len()
    &&& interfaces[i].name@ == name
    &&& forall|j: int| 0 <= j < i ==> (#[trigger] interfaces[j]).name@ != name
}

/// The position of the first enumeration named `name`, if any.
pub open spec fn enum_index(g: Syntax, name: Seq<char>) -> Option<int> {
    if exists|i: int| is_first_enum(g.enums@, name, i) {
        Some(choose|i: int| is_first_enum(g.enums@, name, i))
    } else {
        None
    }
}

/// The position of the first interface named `name`, if any.
pub open spec fn interface_index(g: Syntax, name: Seq<char>) -> Option<int> {
    if exists|i: int| is_first_interface(g.interfaces@, name, i) {
        Some(choose|i: int| is_first_interface(g.interfaces@, name, i))
    } else {
        None
    }
}

/// Some node of the grammar (an interface or an enumeration) is named `name`.
pub open spec fn has_node(g: Syntax, name: Seq<char>) -> bool {
    ||| exists|i: int| 0 <= i < g.interfaces@.len() && (#[trigger] g.interfaces@[i]).name@ == name
    ||| exists|i: int| 0 <= i < g.enums@.len() && (#[trigger] g.enums@[i]).name@ == name
}

/// The names of an interface and of all the interfaces that it refines.
pub open spec fn ancestors_including_self(iface: Interface) -> Seq<Seq<char>> {
    seq![iface.name@] + iface.ancestors@.map_values(|a: String| a@)
}

pub proof fn lemma_enum_index(g: Syntax, name: Seq<char>)
    ensures
        forall|i: int| #[trigger] is_first_enum(g.enums@, name, i) ==> enum_index(g, name) == Some(i),
        enum_index(g, name) is None <==> forall|i: int|
            0 <= i < g.enums@.len() ==> (#[trigger] g.enums@[i]).name@ != name,
        enum_index(g, name) matches Some(i) ==> is_first_enum(g.enums@, name, i),
{
    let enums = g.enums@;
    assert forall|i: int| #[trigger] is_first_enum(enums, name, i) implies enum_index(g, name)
        == Some(i) by {
        let k = choose|k: int| is_first_enum(enums, name, k);
        assert(is_first_enum(enums, name, k));
        if k < i {
            assert(enums[k].name@ != name);
        } else if i < k {
            assert(enums[i].name@ != name);
        }
    }
    if !(forall|i: int| 0 <= i < enums.len() ==> (#[trigger] enums[i]).name@ != name) {
        let w = choose|i: int| 0 <= i < enums.len() && (#[trigger] enums[i]).name@ == name;
        lemma_first_enum_exists(enums, name, w);
    }
}

proof fn lemma_first_enum_exists(enums: Seq<Enum>, name: Seq<char>, w: int)
    requires
        0 <= w < enums.len(),
        enums[w].name@ == name,
    ensures
        exists|i: int| is_first_enum(enums, name, i),
    decreases w,
{
    if forall|j: int| 0 <= j < w ==> (#[trigger] enums[j]).name@ != name {
        assert(is_first_enum(enums, name, w));
    } else {
        let v = choose|j: int| 0 <= j < w && (#[trigger] enums[j]).name@ == name;
        lemma_first_enum_exists(enums, name, v);
    }
}

pub proof fn lemma_interface_index(g: Syntax, name: Seq<char>)
    ensures
        forall|i: int| #[trigger] is_first_interface(g.interfaces@, name, i) ==> interface_index(
            g,
            name,
        ) == Some(i),
        interface_index(g, name) is None <==> forall|i: int|
            0 <= i < g.interfaces@.len() ==> (#[trigger] g.interfaces@[i]).name@ != name,
        interface_index(g, name) matches Some(i) ==> is_first_interface(g.interfaces@, name, i),
{
    let ifaces = g.interfaces@;
    assert forall|i: int| #[trigger] is_first_interface(ifaces, name, i) implies interface_index(
        g,
        name,
    ) == Some(i) by {
        let k = choose|k: int| is_first_interface(ifaces, name, k);
        assert(is_first_interface(ifaces, name, k));
        if k < i {
            assert(ifaces[k].name@ != name);
        } else if i < k {
            assert(ifaces[i].name@ != name);
        }
    }
    if !(forall|i: int| 0 <= i < ifaces.len() ==> (#[trigger] ifaces[i]).name@ != name) {
        let w = choose|i: int| 0 <= i < ifaces.len() && (#[trigger] ifaces[i]).name@ == name;
        lemma_first_interface_exists(ifaces, name, w);
    }
}

proof fn lemma_first_interface_exists(ifaces: Seq<Interface>, name: Seq<char>, w: int)
    requires
        0 <= w < ifaces.len(),
        ifaces[w].name@ == name,
    ensures
        exists|i: int| is_first_interface(ifaces, name, i),
    decreases w,
{
    if forall|j: int| 0 <= j < w ==> (#[trigger] ifaces[j]).name@ != name {
        assert(is_first_interface(ifaces, name, w));
    } else {
        let v = choose|j: int| 0 <= j < w && (#[trigger] ifaces[j]).name@ == name;
        lemma_first_interface_exists(ifaces, name, v);
    }
}

impl Syntax {
    /// The first enumeration named `name`.
    pub fn get_enum_by_name(&self, name: &String) -> (r: Option<&Enum>)
        ensures
            match enum_index(*self, name@) {
                Some(i) => r == Some(&self.enums@[i]),
                None => r is None,
            },
    {
        proof {
            lemma_enum_index(*self, name@);
        }
        let mut i: usize = 0;
        while i < self.enums.len()
            invariant
                i <= self.enums@.len(),
                forall|j: int| 0 <= j < i ==> (#[trigger] self.enums@[j]).name@ != name@,
            decreases self.enums.len() - i,
        {
            if self.enums[i].name == *name {
                assert(is_first_enum(self.enums@, name@, i as int));
                return Some(&self.enums[i]);
            }
            i = i + 1;
        }
        None
    }

    /// The first interface named `kind`.
    pub fn get_interface_by_kind(&self, kind: &String) -> (r: Option<&Interface>)
        ensures
            match interface_index(*self, kind@) {
                Some(i) => r == Some(&self.interfaces@[i]),
                None => r is None,
            },
    {
        proof {
            lemma_interface_index(*self, kind@);
        }
        let mut i: usize = 0;
        while i < self.interfaces.len()
            invariant
                i <= self.interfaces@.len(),
                forall|j: int| 0 <= j < i ==> (#[trigger] self.interfaces@[j]).name@ != kind@,
            decreases self.interfaces.len() - i,
        {
            if self.interfaces[i].name == *kind {
                assert(is_first_interface(self.interfaces@, kind@, i as int));
                return Some(&self.interfaces[i]);
            }
            i = i + 1;
        }
        None
    }

    /// The node named `name`, when the grammar has one.
    pub fn get_kind(&self, name: &String) -> (r: Option<String>)
        ensures
            match r {
                Some(k) => has_node(*self, name@) && k@ == name@,
                None => !has_node(*self, name@),
            },
    {
        let mut i: usize = 0;
        while i < self.interfaces.len()
            invariant
                i <= self.interfaces@.len(),
                forall|j: int| 0 <= j < i ==> (#[trigger] self.interfaces@[j]).name@ != name@,
            decreases self.interfaces.len() - i,
        {
            if self.interfaces[i].name == *name {
                assert(self.interfaces@[i as int].name@ == name@);
                return Some(name.clone());
            }
            i = i + 1;
        }
        let mut i: usize = 0;
        while i < self.enums.len()
            invariant
                i <= self.enums@.len(),
                forall|j: int| 0 <= j < self.interfaces@.len() ==> (
                #[trigger] self.interfaces@[j]).name@ != name@,
                forall|j: int| 0 <= j < i ==> (#[trigger] self.enums@[j]).name@ != name@,
            decreases self.enums.len() - i,
        {
            if self.enums[i].name == *name {
                assert(self.enums@[i as int].name@ == name@);
                return Some(name.clone());
            }
            i = i + 1;
        }
        None
    }

    /// The names of the interface named `name` and of all the interfaces
    /// that it refines, when the grammar has such an interface.
    pub fn get_ancestors_by_name_including_self(&self, name: &String) -> (r: Option<Vec<String>>)
        ensures
            match interface_index(*self, name@) {
                Some(i) => r matches Some(v) && v@.map_values(|a: String| a@)
                    == ancestors_including_self(self.interfaces@[i]),
                None => r is None,
            },
    {
        match self.get_interface_by_kind(name) {
            None => None,
            Some(iface) => {
                let mut out: Vec<String> = Vec::new();
                out.push(iface.name.clone());
                let mut i: usize = 0;
                while i < iface.ancestors.len()
                    invariant
                        i <= iface.ancestors@.len(),
                        out@.len() == i + 1,
                        out@[0]@ == iface.name@,
                        forall|j: int|
                            1 <= j <= i ==> (#[trigger] out@[j])@ == iface.ancestors@[j - 1]@,
                    decreases iface.ancestors.len() - i,
                {
                    out.push(iface.ancestors[i].clone());
                    i = i + 1;
                }
                proof {
                    assert(out@.map_values(|a: String| a@) =~= ancestors_including_self(*iface));
                }
                Some(out)
            },
        }
    }
}

} // verus!
