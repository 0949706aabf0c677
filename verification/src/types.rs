//! The type registry: named object schemas mapped to backing tables.
//!
//! An [`ObjectType`] is created at schema-load time and immutable
//! thereafter; it is looked up by name, never enumerated positionally.

use vstd::prelude::*;
use crate::error::Error;
use crate::strkit::str_equal;

verus! {

/// The name under which the built-in user entity is registered.
pub const OAUTHUSER_TYPE_NAME: &'static str = "OAuthUser";

/// The scalar kind a declared field carries.  Only the tag matters to this
/// library; the values themselves travel as [`crate::sqlval::SqlValue`].
#[derive(Debug, Clone, Copy, PartialEq, Eq, Structural)]
pub enum FieldKind {
    Id,
    Text,
    Number,
    Boolean,
}

/// One declared field of an object type.
#[derive(Debug, Clone)]
pub struct FieldDef {
    pub name: String,
    pub kind: FieldKind,
}

/// A named schema: a unique type name, an ordered set of typed fields, and
/// the resolved name of the relational table backing it.
#[derive(Debug, Clone)]
pub struct ObjectType {
    pub name: String,
    pub backing_table: String,
    pub fields: Vec<FieldDef>,
}

impl ObjectType {
    /// The declared field names, in declaration order.
    pub open spec fn field_names(self) -> Seq<Seq<char>> {
        self.fields@.map(|i: int, f: FieldDef| f.name@)
    }

    /// Whether a field of this name is declared.
    pub open spec fn spec_has_field(self, name: Seq<char>) -> bool {
        exists|i: int| 0 <= i < self.fields@.len() && self.fields@[i].name@ == name
    }

    /// Tests whether `name` is a declared field of this type.
    pub fn has_field(&self, name: &str) -> (b: bool)
        ensures
            b == self.spec_has_field(name@),
    {
        let mut i: usize = 0;
        while i < self.fields.len()
            invariant
                i <= self.fields@.len(),
                forall|j: int| 0 <= j < i ==> self.fields@[j].name@ != name@,
            decreases self.fields@.len() - i,
        {
            if str_equal(self.fields[i].name.as_str(), name) {
                return true;
            }
            i = i + 1;
        }
        false
    }
}

/// A resolved type: either object-shaped, with a schema and backing table,
/// or a scalar alias, which the object-to-table bridge rejects.
#[derive(Debug, Clone)]
pub enum Type {
    Object(ObjectType),
    Scalar(FieldKind),
}

/// One registered name.
#[derive(Debug, Clone)]
pub struct TypeEntry {
    pub name: String,
    pub ty: Type,
}

/// Resolves a logical type name to its structural description.  Filled at
/// schema-load time; read-only while requests are served.
#[derive(Debug, Clone)]
pub struct TypeRegistry {
    entries: Vec<TypeEntry>,
}

/// The map a sequence of registry entries denotes; a later entry for the
/// same name would win, but registration keeps names unique.
pub open spec fn entries_type_map(s: Seq<TypeEntry>) -> Map<Seq<char>, Type>
    decreases s.len(),
{
    if s.len() == 0 {
        Map::empty()
    } else {
        entries_type_map(s.drop_last()).insert(s.last().name@, s.last().ty)
    }
}

proof fn lemma_entries_type_map(s: Seq<TypeEntry>, name: Seq<char>)
    ensures
        entries_type_map(s).contains_key(name) <==> exists|i: int|
            0 <= i < s.len() && s[i].name@ == name,
    decreases s.len(),
{
    if s.len() > 0 {
        lemma_entries_type_map(s.drop_last(), name);
        if exists|i: int| 0 <= i < s.len() && s[i].name@ == name {
            let i = choose|i: int| 0 <= i < s.len() && s[i].name@ == name;
            if i < s.len() - 1 {
                assert(s.drop_last()[i].name@ == name);
            }
        }
    }
}

proof fn lemma_entries_type_map_at(s: Seq<TypeEntry>, name: Seq<char>, i: int)
    requires
        0 <= i < s.len(),
        s[i].name@ == name,
        forall|j: int| i < j < s.len() ==> s[j].name@ != name,
    ensures
        entries_type_map(s).contains_key(name),
        entries_type_map(s)[name] == s[i].ty,
    decreases s.len(),
{
    if i == s.len() - 1 {
    } else {
        assert(s.last().name@ != name);
        assert(s.drop_last()[i] == s[i]);
        assert(forall|j: int| i < j < s.drop_last().len() ==> s.drop_last()[j].name@ != name);
        lemma_entries_type_map_at(s.drop_last(), name, i);
    }
}

impl View for TypeRegistry {
    type V = Map<Seq<char>, Type>;

    closed spec fn view(&self) -> Map<Seq<char>, Type> {
        entries_type_map(self.entries@)
    }
}

impl TypeRegistry {
    /// An empty registry.
    pub fn new() -> (r: TypeRegistry)
        ensures
            r@ == Map::<Seq<char>, Type>::empty(),
    {
        TypeRegistry { entries: Vec::new() }
    }

    /// Whether a type of this name is registered.
    pub fn contains(&self, name: &str) -> (b: bool)
        ensures
            b == self@.contains_key(name@),
    {
        match self.lookup_type(name) {
            Ok(_) => true,
            Err(_) => false,
        }
    }

    /// Registers a type under a fresh name.  Part of schema loading, which
    /// happens before any request is served; callers test [`Self::contains`]
    /// first.
    pub fn register(&mut self, name: String, ty: Type)
        requires
            !old(self)@.contains_key(name@),
        ensures
            final(self)@ == old(self)@.insert(name@, ty),
    {
        self.entries.push(TypeEntry { name, ty });
        proof {
            assert(self.entries@.drop_last() =~= old(self).entries@);
        }
    }

    /// Resolves a registered name to its type description; fails with
    /// `TypeNotFound` for an unknown name.
    pub fn lookup_type(&self, name: &str) -> (r: Result<&Type, Error>)
        ensures
            r is Ok <==> self@.contains_key(name@),
            r is Ok ==> Some(*r->Ok_0) == ({
                let m = self@;
                if m.contains_key(name@) {
                    Some(m[name@])
                } else {
                    None::<Type>
                }
            }),
            r is Err ==> r->Err_0 == Error::TypeNotFound,
    {
        proof {
            lemma_entries_type_map(self.entries@, name@);
        }
        let n = self.entries.len();
        let mut i: usize = 0;
        while i < n
            invariant
                i <= n,
                n == self.entries@.len(),
                forall|j: int| n - i <= j < n ==> self.entries@[j].name@ != name@,
            decreases n - i,
        {
            // Scanning from the back keeps "latest registration wins"
            // aligned with the denoted map even though names stay unique.
            let k = n - 1 - i;
            if str_equal(self.entries[k].name.as_str(), name) {
                proof {
                    lemma_entries_type_map_at(self.entries@, name@, k as int);
                }
                return Ok(&self.entries[k].ty);
            }
            i = i + 1;
        }
        assert(forall|j: int| 0 <= j < self.entries@.len() ==> self.entries@[j].name@ != name@);
        Err(Error::TypeNotFound)
    }
}

/// A registry as schema loading leaves it: the built-in user entity,
/// declaring an identifier and a `username` field, mapped to its backing
/// table.
pub fn builtin_registry() -> (r: TypeRegistry)
    ensures
        r@.dom() =~= set!["OAuthUser"@],
        r@.contains_key("OAuthUser"@),
        r@["OAuthUser"@] matches Type::Object(ot) && ({
            &&& ot.name@ == "OAuthUser"@
            &&& ot.backing_table@ == "oauth_user"@
            &&& ot.spec_has_field("id"@)
            &&& ot.spec_has_field("username"@)
            &&& ot.field_names() =~= seq!["id"@, "username"@]
        }),
{
    let mut fields: Vec<FieldDef> = Vec::new();
    fields.push(FieldDef { name: String::from_str("id"), kind: FieldKind::Id });
    fields.push(FieldDef { name: String::from_str("username"), kind: FieldKind::Text });
    let ot = ObjectType {
        name: String::from_str("OAuthUser"),
        backing_table: String::from_str("oauth_user"),
        fields,
    };
    proof {
        assert(ot.spec_has_field("id"@)) by {
            assert(ot.fields@[0].name@ == "id"@);
        }
        assert(ot.spec_has_field("username"@)) by {
            assert(ot.fields@[1].name@ == "username"@);
        }
        assert(ot.field_names() =~= seq!["id"@, "username"@]);
    }
    let mut r = TypeRegistry::new();
    r.register(String::from_str("OAuthUser"), Type::Object(ot));
    r
}

} // verus!
