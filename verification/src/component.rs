//! Components: instances of blueprints, with their state and the rules on
//! who may call which method.

use crate::codec::{decode, decoded, views, Field, TAG_ADDRESS};
use crate::describe::Type;
use crate::error::RuntimeError;
use crate::types::{Address, AddressKind};
use vstd::bytes::{spec_u128_from_le_bytes, spec_u128_to_le_bytes, u128_from_le_bytes, u128_to_le_bytes};
use vstd::prelude::*;
use vstd::slice::slice_subrange;

verus! {

/// The byte that stands for an address kind.
pub open spec fn kind_byte(kind: AddressKind) -> u8 {
    match kind {
        AddressKind::Package => 0,
        AddressKind::Component => 1,
        AddressKind::ResourceDef => 2,
    }
}

/// The bytes of an address field: its kind, then its identifier with the
/// lowest byte first.
pub open spec fn address_payload(a: Address) -> Seq<u8> {
    seq![kind_byte(a.kind)] + spec_u128_to_le_bytes(a.id)
}

/// The address that the bytes of an address field stand for.
pub open spec fn address_of(payload: Seq<u8>) -> Address
    recommends
        payload.len() == 17,
        payload[0] <= 2,
{
    Address {
        kind: if payload[0] == 0 {
            AddressKind::Package
        } else if payload[0] == 1 {
            AddressKind::Component
        } else {
            AddressKind::ResourceDef
        },
        id: spec_u128_from_le_bytes(payload.subrange(1, 17)),
    }
}

/// Reading back the bytes of an address gives the address.
pub proof fn lemma_address_round_trip(a: Address)
    ensures
        address_payload(a).len() == 17,
        address_payload(a)[0] <= 2,
        address_of(address_payload(a)) == a,
{
    vstd::bytes::lemma_auto_spec_u128_to_from_le_bytes();
    assert(spec_u128_to_le_bytes(a.id).len() == 16);
    assert(address_payload(a).subrange(1, 17) =~= spec_u128_to_le_bytes(a.id));
}

/// The field that holds an address.
pub fn address_field(a: Address) -> (f: Field)
    ensures
        f@ == (TAG_ADDRESS, address_payload(a)),
{
    let kind: u8 = match a.kind {
        AddressKind::Package => 0,
        AddressKind::Component => 1,
        AddressKind::ResourceDef => 2,
    };
    let mut payload: Vec<u8> = Vec::new();
    payload.push(kind);
    let mut id = u128_to_le_bytes(a.id);
    payload.append(&mut id);
    assert(payload@ =~= address_payload(a));
    Field { tag: TAG_ADDRESS, payload }
}

/// Where the address of a required badge comes from.
#[derive(Debug, Clone, Copy, PartialEq, Eq, Structural)]
pub enum BadgeSource {
    /// The address is written in the rule.
    Fixed(Address),
    /// The address is the value of the state field with this index.
    StateField(usize),
}

/// The rule on one method.
#[derive(Debug)]
pub enum AuthRule {
    /// Anyone may call the method.
    Public,
    /// A caller must present a badge of each of these resources.
    Badges(Vec<BadgeSource>),
}

/// The rule on a method, under the method's name.
#[derive(Debug)]
pub struct MethodRule {
    pub method: String,
    pub rule: AuthRule,
}

/// The authorization table of a component. Where a name occurs more than
/// once, its first entry counts.
#[derive(Debug)]
pub struct ComponentAuthorization {
    pub rules: Vec<MethodRule>,
}

/// Who may call a method.
#[derive(Debug)]
pub enum MethodAuthorization {
    /// Anyone.
    Public,
    /// Only the component itself.
    Private,
    /// Whoever presents a badge of each of these resources.
    ProofOfBadge(Vec<Address>),
}

/// The mathematical value of a [`MethodAuthorization`].
pub ghost enum Access {
    Public,
    Private,
    ProofOfBadge(Seq<Address>),
}

impl View for MethodAuthorization {
    type V = Access;

    open spec fn view(&self) -> Access {
        match self {
            MethodAuthorization::Public => Access::Public,
            MethodAuthorization::Private => Access::Private,
            MethodAuthorization::ProofOfBadge(required) => Access::ProofOfBadge(required@),
        }
    }
}

/// A state blob that was checked against a schema, with its fields.
#[derive(Debug)]
pub struct ValidatedData {
    pub raw: Vec<u8>,
    pub fields: Vec<Field>,
}

/// The place of the first rule from `k` on that is named `name`, or the
/// length of the table where there is none.
pub open spec fn rule_index(rules: Seq<MethodRule>, name: Seq<char>, k: int) -> int
    decreases rules.len() - k,
{
    if k >= rules.len() {
        rules.len() as int
    } else if rules[k].method@ == name {
        k
    } else {
        rule_index(rules, name, k + 1)
    }
}

/// Whether the table has a rule for the method.
pub open spec fn has_rule(rules: Seq<MethodRule>, name: Seq<char>) -> bool {
    rule_index(rules, name, 0) < rules.len()
}

/// The address that a badge source names, given the fields of the state;
/// none where the source points at no field or at a field that is no
/// address.
pub open spec fn resolved(fields: Seq<(u8, Seq<u8>)>, source: BadgeSource) -> Option<Address> {
    match source {
        BadgeSource::Fixed(a) => Some(a),
        BadgeSource::StateField(i) => if i < fields.len() && fields[i as int].0 == TAG_ADDRESS
            && fields[i as int].1.len() == 17 && fields[i as int].1[0] <= 2 {
            Some(address_of(fields[i as int].1))
        } else {
            None
        },
    }
}

/// Whether every source names an address.
pub open spec fn all_resolved(fields: Seq<(u8, Seq<u8>)>, sources: Seq<BadgeSource>) -> bool {
    forall|i: int| 0 <= i < sources.len() ==> (#[trigger] resolved(fields, sources[i])) is Some
}

/// What a rule grants, given the fields of the state. A rule with a source
/// that names no address grants nothing to outside callers.
pub open spec fn granted(fields: Seq<(u8, Seq<u8>)>, rule: AuthRule) -> Access {
    match rule {
        AuthRule::Public => Access::Public,
        AuthRule::Badges(sources) => if all_resolved(fields, sources@) {
            Access::ProofOfBadge(
                Seq::new(sources@.len(), |i: int| resolved(fields, sources@[i])->Some_0),
            )
        } else {
            Access::Private
        },
    }
}

/// Who may call the method `name`, given the table and the fields of the
/// state: what the method's rule grants, and only the component itself
/// where the table has no rule for it.
pub open spec fn access_to(rules: Seq<MethodRule>, fields: Seq<(u8, Seq<u8>)>, name: Seq<char>)
    -> Access {
    if has_rule(rules, name) {
        granted(fields, rules[rule_index(rules, name, 0)].rule)
    } else {
        Access::Private
    }
}

/// Whether a call is let through: the component's own calls always are;
/// an outside call is where the method is public, or where the caller
/// presents every badge that the method requires.
pub open spec fn permitted(access: Access, presented: Seq<Address>, internal: bool) -> bool {
    internal || match access {
        Access::Public => true,
        Access::Private => false,
        Access::ProofOfBadge(required) => forall|i: int|
            0 <= i < required.len() ==> presented.contains(#[trigger] required[i]),
    }
}

/// A method that the table does not name is private: the component's own
/// calls reach it, and no outside call does, whatever badges are presented.
pub proof fn lemma_absent_method_is_private(
    rules: Seq<MethodRule>,
    fields: Seq<(u8, Seq<u8>)>,
    name: Seq<char>,
    presented: Seq<Address>,
)
    requires
        !has_rule(rules, name),
    ensures
        access_to(rules, fields, name) == Access::Private,
        !permitted(access_to(rules, fields, name), presented, false),
        permitted(access_to(rules, fields, name), presented, true),
{
}

/// A table has no rule for a method exactly when none of its entries
/// carries the method's name.
pub proof fn lemma_has_rule(rules: Seq<MethodRule>, name: Seq<char>, k: int)
    requires
        0 <= k <= rules.len(),
    ensures
        k <= rule_index(rules, name, k) <= rules.len(),
        rule_index(rules, name, k) < rules.len() ==> rules[rule_index(rules, name, k)].method@
            == name,
        forall|i: int| k <= i < rule_index(rules, name, k) ==> (#[trigger] rules[i]).method@ != name,
    decreases rules.len() - k,
{
    if k < rules.len() && rules[k].method@ != name {
        lemma_has_rule(rules, name, k + 1);
    }
}

/// Reads an address from the seventeen bytes of its field.
pub fn read_address(payload: &Vec<u8>) -> (a: Address)
    requires
        payload@.len() == 17,
        payload@[0] <= 2,
    ensures
        a == address_of(payload@),
{
    let kind = if payload[0] == 0 {
        AddressKind::Package
    } else if payload[0] == 1 {
        AddressKind::Component
    } else {
        AddressKind::ResourceDef
    };
    let id = u128_from_le_bytes(slice_subrange(payload.as_slice(), 1, 17));
    Address { kind, id }
}

/// Reads the address that a field holds, where it holds one.
pub fn field_address(field: &Field) -> (r: Option<Address>)
    ensures
        r == (if field.tag == TAG_ADDRESS && field.payload@.len() == 17 && field.payload@[0] <= 2 {
            Some(address_of(field.payload@))
        } else {
            None
        }),
{
    if field.tag != TAG_ADDRESS || field.payload.len() != 17 || field.payload[0] > 2 {
        return None;
    }
    Some(read_address(&field.payload))
}

/// Works out what a rule grants, given the fields of the state.
pub fn convert(fields: &Vec<Field>, rule: &AuthRule) -> (r: MethodAuthorization)
    ensures
        r@ == granted(views(fields@), *rule),
{
    match rule {
        AuthRule::Public => MethodAuthorization::Public,
        AuthRule::Badges(sources) => {
            let ghost model = views(fields@);
            let mut required: Vec<Address> = Vec::new();
            let mut i: usize = 0;
            while i < sources.len()
                invariant
                    i <= sources.len(),
                    model == views(fields@),
                    *rule == AuthRule::Badges(*sources),
                    required@.len() == i,
                    forall|j: int|
                        0 <= j < i ==> (#[trigger] resolved(model, sources@[j])) == Some(
                            required@[j],
                        ),
                decreases sources.len() - i,
            {
                let found = match sources[i] {
                    BadgeSource::Fixed(a) => Some(a),
                    BadgeSource::StateField(k) => if k < fields.len() {
                        assert(model[k as int] == fields@[k as int]@);
                        field_address(&fields[k])
                    } else {
                        None
                    },
                };
                match found {
                    None => {
                        assert(resolved(model, sources@[i as int]) is None);
                        assert(!all_resolved(model, sources@));
                        return MethodAuthorization::Private;
                    },
                    Some(a) => {
                        required.push(a);
                    },
                }
                i = i + 1;
            }
            assert(required@ =~= Seq::new(
                sources@.len(),
                |i: int| resolved(model, sources@[i])->Some_0,
            ));
            MethodAuthorization::ProofOfBadge(required)
        },
    }
}

impl ValidatedData {
    /// Checks a state blob against a schema and keeps its fields.
    pub fn from_slice(schema: &Type, bytes: &[u8]) -> (r: Result<
        ValidatedData,
        crate::error::DecodeError,
    >)
        ensures
            match r {
                Ok(data) => decoded(schema@, bytes@) == Ok::<
                    Seq<(u8, Seq<u8>)>,
                    crate::error::DecodeError,
                >(views(data.fields@)) && data.raw@ == bytes@,
                Err(e) => decoded(schema@, bytes@) == Err::<
                    Seq<(u8, Seq<u8>)>,
                    crate::error::DecodeError,
                >(e),
            },
    {
        match decode(schema, bytes) {
            Err(e) => Err(e),
            Ok(fields) => Ok(ValidatedData { raw: vstd::slice::slice_to_vec(bytes), fields }),
        }
    }
}

impl MethodAuthorization {
    /// Lets a call through or refuses it.
    ///
    /// Fails with `UnauthorizedAccess` exactly where the call comes from
    /// outside and the method is private, or requires a badge that the
    /// caller does not present.
    pub fn check(&self, presented: &Vec<Address>, internal: bool) -> (r: Result<(), RuntimeError>)
        ensures
            match r {
                Ok(()) => permitted(self@, presented@, internal),
                Err(e) => !permitted(self@, presented@, internal) && e
                    == RuntimeError::UnauthorizedAccess,
            },
    {
        if internal {
            return Ok(());
        }
        match self {
            MethodAuthorization::Public => Ok(()),
            MethodAuthorization::Private => Err(RuntimeError::UnauthorizedAccess),
            MethodAuthorization::ProofOfBadge(required) => {
                let mut i: usize = 0;
                while i < required.len()
                    invariant
                        i <= required.len(),
                        !internal,
                        self@ == Access::ProofOfBadge(required@),
                        forall|j: int| 0 <= j < i ==> presented@.contains(#[trigger] required@[j]),
                    decreases required.len() - i,
                {
                    let mut found = false;
                    let mut k: usize = 0;
                    while k < presented.len()
                        invariant
                            k <= presented.len(),
                            i < required.len(),
                            found ==> presented@.contains(required@[i as int]),
                            !found ==> forall|j: int|
                                0 <= j < k ==> presented@[j] != required@[i as int],
                        decreases presented.len() - k,
                    {
                        if presented[k] == required[i] {
                            found = true;
                        }
                        k = k + 1;
                    }
                    if !found {
                        assert(!presented@.contains(required@[i as int]));
                        assert(self@->ProofOfBadge_0 == required@);
                        assert(!permitted(self@, presented@, internal));
                        return Err(RuntimeError::UnauthorizedAccess);
                    }
                    i = i + 1;
                }
                Ok(())
            },
        }
    }
}

/// An instance of a blueprint.
#[derive(Debug)]
pub struct Component {
    package_id: Address,
    blueprint_name: String,
    method_auth: ComponentAuthorization,
    state: Vec<u8>,
}

/// The mathematical value of a [`Component`].
pub ghost struct ComponentView {
    pub package_id: Address,
    pub blueprint_name: Seq<char>,
    pub rules: Seq<MethodRule>,
    pub state: Seq<u8>,
}

impl View for Component {
    type V = ComponentView;

    closed spec fn view(&self) -> ComponentView {
        ComponentView {
            package_id: self.package_id,
            blueprint_name: self.blueprint_name@,
            rules: self.method_auth.rules@,
            state: self.state@,
        }
    }
}

impl Component {
    /// A component of a blueprint, with its authorization table and its
    /// first state.
    pub fn new(
        package_id: Address,
        blueprint_name: String,
        method_auth: ComponentAuthorization,
        state: Vec<u8>,
    ) -> (c: Component)
        ensures
            c@ == (ComponentView {
                package_id,
                blueprint_name: blueprint_name@,
                rules: method_auth.rules@,
                state: state@,
            }),
    {
        Component { package_id, blueprint_name, method_auth, state }
    }

    /// Decodes the state under the blueprint's schema and works out who
    /// may call the method.
    ///
    /// Fails with `InvalidData` exactly where the state does not decode
    /// under the schema. Otherwise the result is what the method's rule
    /// grants; a method that the table does not name is private.
    pub fn method_authorization(&self, schema: &Type, method_name: &str) -> (r: Result<
        (ValidatedData, MethodAuthorization),
        RuntimeError,
    >)
        ensures
            match r {
                Ok(found) => decoded(schema@, self@.state) == Ok::<
                    Seq<(u8, Seq<u8>)>,
                    crate::error::DecodeError,
                >(views(found.0.fields@)) && found.0.raw@ == self@.state && found.1@ == access_to(
                    self@.rules,
                    views(found.0.fields@),
                    method_name@,
                ),
                Err(e) => decoded(schema@, self@.state) is Err && e == RuntimeError::InvalidData(
                    decoded(schema@, self@.state)->Err_0,
                ),
            },
    {
        let data = match ValidatedData::from_slice(schema, self.state.as_slice()) {
            Err(e) => { return Err(RuntimeError::InvalidData(e)); },
            Ok(data) => data,
        };
        let name = method_name.to_owned();
        let rules = &self.method_auth.rules;
        let mut k: usize = 0;
        proof {
            lemma_has_rule(rules@, name@, 0);
        }
        while k < rules.len()
            invariant
                k <= rules.len(),
                name@ == method_name@,
                rules@ == self@.rules,
                data.raw@ == self@.state,
                decoded(schema@, self@.state) == Ok::<Seq<(u8, Seq<u8>)>, crate::error::DecodeError>(
                    views(data.fields@),
                ),
                rule_index(rules@, name@, 0) == rule_index(rules@, name@, k as int),
            decreases rules.len() - k,
        {
            if rules[k].method == name {
                let authorization = convert(&data.fields, &rules[k].rule);
                return Ok((data, authorization));
            }
            k = k + 1;
        }
        Ok((data, MethodAuthorization::Private))
    }

    /// The authorization table.
    pub fn authorization(&self) -> (table: &ComponentAuthorization)
        ensures
            table.rules@ == self@.rules,
    {
        &self.method_auth
    }

    /// The package that holds the component's blueprint.
    pub fn package_id(&self) -> (id: Address)
        ensures
            id == self@.package_id,
    {
        self.package_id
    }

    /// The name of the component's blueprint.
    pub fn blueprint_name(&self) -> (name: &str)
        ensures
            name@ == self@.blueprint_name,
    {
        self.blueprint_name.as_str()
    }

    /// The state blob.
    pub fn state(&self) -> (state: &[u8])
        ensures
            state@ == self@.state,
    {
        self.state.as_slice()
    }

    /// Replaces the state blob whole; nothing else changes.
    pub fn set_state(&mut self, new_state: Vec<u8>)
        ensures
            final(self)@ == (ComponentView { state: new_state@, ..old(self)@ }),
    {
        self.state = new_state;
    }
}

} // verus!
