use vstd::prelude::*;

verus! {

/// Per-entry access policy: who may update the entry once it exists and who
/// may read it back through a query.
#[derive(Debug, Clone)]
pub struct Permissions {
    pub public_access: bool,
    pub allowed_networks: Vec<String>,
    pub allowed_users: Vec<String>,
    pub can_modify: bool,
}

/// Mathematical model of [`Permissions`]: the string collections become
/// sequences of character sequences.
pub ghost struct PermissionsModel {
    pub public_access: bool,
    pub allowed_networks: Seq<Seq<char>>,
    pub allowed_users: Seq<Seq<char>>,
    pub can_modify: bool,
}

impl View for Permissions {
    type V = PermissionsModel;

    open spec fn view(&self) -> PermissionsModel {
        PermissionsModel {
            public_access: self.public_access,
            allowed_networks: self.allowed_networks.deep_view(),
            allowed_users: self.allowed_users.deep_view(),
            can_modify: self.can_modify,
        }
    }
}

/// A named, owned, versioned directory record. Names are unique within a
/// namespace (`network_id`); the same name may exist independently in two
/// namespaces.
#[derive(Debug, Clone)]
pub struct Entry {
    pub name: String,
    pub address: String,
    pub network_id: String,
    pub version: u64,
    pub created_at: i64,
    pub updated_at: i64,
    pub owner: String,
    pub tags: Vec<String>,
    pub permissions: Permissions,
}

/// Mathematical model of [`Entry`].
pub ghost struct EntryModel {
    pub name: Seq<char>,
    pub address: Seq<char>,
    pub network_id: Seq<char>,
    pub version: int,
    pub created_at: int,
    pub updated_at: int,
    pub owner: Seq<char>,
    pub tags: Seq<Seq<char>>,
    pub permissions: PermissionsModel,
}

impl View for Entry {
    type V = EntryModel;

    open spec fn view(&self) -> EntryModel {
        EntryModel {
            name: self.name@,
            address: self.address@,
            network_id: self.network_id@,
            version: self.version as int,
            created_at: self.created_at as int,
            updated_at: self.updated_at as int,
            owner: self.owner@,
            tags: self.tags.deep_view(),
            permissions: self.permissions@,
        }
    }
}

impl DeepView for Permissions {
    type V = PermissionsModel;

    open spec fn deep_view(&self) -> PermissionsModel {
        self.view()
    }
}

impl DeepView for Entry {
    type V = EntryModel;

    open spec fn deep_view(&self) -> EntryModel {
        self.view()
    }
}

/// The key under which an entry is stored: a namespace paired with a name.
pub ghost struct KeyModel {
    pub network_id: Seq<char>,
    pub name: Seq<char>,
}

impl EntryModel {
    /// The store key of this entry.
    pub open spec fn key(self) -> KeyModel {
        KeyModel { network_id: self.network_id, name: self.name }
    }
}

/// Copies a vector of strings, preserving its view exactly.
pub fn clone_string_vec(v: &Vec<String>) -> (r: Vec<String>)
    ensures
        r@ =~= v@,
        r.deep_view() == v.deep_view(),
{
    let mut r: Vec<String> = Vec::new();
    let mut idx: usize = 0;
    while idx < v.len()
        invariant
            idx <= v@.len(),
            r@.len() == idx,
            forall|i: int| 0 <= i < idx ==> r@[i] == v@[i],
        decreases v@.len() - idx,
    {
        r.push(v[idx].clone());
        idx += 1;
    }
    proof {
        assert(r@ =~= v@);
        assert(r.deep_view() =~= v.deep_view());
    }
    r
}

impl Permissions {
    /// Copies the permissions, preserving the model exactly.
    pub fn duplicate(&self) -> (r: Permissions)
        ensures
            r@ == self@,
    {
        let r = Permissions {
            public_access: self.public_access,
            allowed_networks: clone_string_vec(&self.allowed_networks),
            allowed_users: clone_string_vec(&self.allowed_users),
            can_modify: self.can_modify,
        };
        r
    }
}

impl Entry {
    /// Copies the entry, preserving the model exactly.
    pub fn duplicate(&self) -> (r: Entry)
        ensures
            r@ == self@,
    {
        let r = Entry {
            name: self.name.clone(),
            address: self.address.clone(),
            network_id: self.network_id.clone(),
            version: self.version,
            created_at: self.created_at,
            updated_at: self.updated_at,
            owner: self.owner.clone(),
            tags: clone_string_vec(&self.tags),
            permissions: self.permissions.duplicate(),
        };
        r
    }
}

/// Whether a vector of strings holds the given string, stated over the
/// deep view.
pub fn vec_contains_string(v: &Vec<String>, x: &String) -> (b: bool)
    ensures
        b == v.deep_view().contains(x@),
{
    let mut idx: usize = 0;
    while idx < v.len()
        invariant
            idx <= v@.len(),
            forall|i: int| 0 <= i < idx ==> v.deep_view()[i] != x@,
        decreases v@.len() - idx,
    {
        proof {
            assert(v.deep_view()[idx as int] == v@[idx as int]@);
        }
        if v[idx].eq(x) {
            return true;
        }
        idx += 1;
    }
    false
}

} // verus!
