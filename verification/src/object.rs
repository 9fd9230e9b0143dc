//! Objects: what a transaction reads, writes and deletes.

use crate::base_types::{ObjectDigest, ObjectID, ObjectRef, SequenceNumber, SuiAddress, TransactionDigest};
use vstd::prelude::*;

verus! {

/// Who may use an object.
#[derive(Clone, Copy, Debug, PartialEq, Eq, Structural)]
pub enum Owner {
    /// Owned by an account.
    AddressOwner(SuiAddress),
    /// Owned by another object.
    ObjectOwner(ObjectID),
    /// Usable by every transaction; the version at which it became shared is recorded.
    Shared { initial_shared_version: SequenceNumber },
    /// Frozen: nobody can change or delete it.
    Immutable,
}

/// The type of a Move object, as far as the store tells types apart.
#[derive(Clone, Debug, PartialEq, Eq)]
pub enum MoveObjectType {
    /// A coin of the native currency, with which gas is paid.
    GasCoin,
    /// A coin of another currency, named by its type.
    Coin(String),
    /// Any other type, named in full.
    Other(String),
}

/// The type of a Move object as a mathematical value.
pub enum MoveObjectTypeView {
    GasCoin,
    Coin(Seq<char>),
    Other(Seq<char>),
}

impl View for MoveObjectType {
    type V = MoveObjectTypeView;

    open spec fn view(&self) -> MoveObjectTypeView {
        match self {
            MoveObjectType::GasCoin => MoveObjectTypeView::GasCoin,
            MoveObjectType::Coin(a) => MoveObjectTypeView::Coin(a@),
            MoveObjectType::Other(a) => MoveObjectTypeView::Other(a@),
        }
    }
}

impl MoveObjectTypeView {
    /// Whether this is the type of a coin, of whatever currency.
    pub open spec fn is_coin(self) -> bool {
        self is GasCoin || self is Coin
    }

    /// The type that a struct of the given address, module and name is, with
    /// the names of its type arguments and its own name in full: a coin is the
    /// struct `Coin` of module `coin` of the framework with one type
    /// argument, its currency; the native currency is `0x2::sui::SUI`.
    pub open spec fn from_parts(
        address: ObjectID,
        module: Seq<char>,
        name: Seq<char>,
        type_params: Seq<Seq<char>>,
        full_name: Seq<char>,
    ) -> MoveObjectTypeView {
        if address == ObjectID(2) && module == "coin"@ && name == "Coin"@ && type_params.len() == 1 {
            if type_params[0] == "0x2::sui::SUI"@ {
                MoveObjectTypeView::GasCoin
            } else {
                MoveObjectTypeView::Coin(type_params[0])
            }
        } else {
            MoveObjectTypeView::Other(full_name)
        }
    }
}

impl MoveObjectType {
    /// The type that a struct of the given address, module and name is, with
    /// the names of its type arguments and its own name in full.
    pub fn from_parts(
        address: ObjectID,
        module: &String,
        name: &String,
        type_params: &Vec<String>,
        full_name: String,
    ) -> (r: Self)
        ensures
            r@ == MoveObjectTypeView::from_parts(
                address,
                module@,
                name@,
                type_params@.map_values(|p: String| p@),
                full_name@,
            ),
    {
        if address.0 == 2 && type_params.len() == 1 && *module == "coin".to_owned() && *name
            == "Coin".to_owned() {
            if type_params[0] == "0x2::sui::SUI".to_owned() {
                MoveObjectType::GasCoin
            } else {
                MoveObjectType::Coin(type_params[0].clone())
            }
        } else {
            MoveObjectType::Other(full_name)
        }
    }

    /// Whether this is the type of a coin, of whatever currency.
    pub fn is_coin(&self) -> (r: bool)
        ensures
            r == self@.is_coin(),
    {
        match self {
            MoveObjectType::GasCoin => true,
            MoveObjectType::Coin(_) => true,
            MoveObjectType::Other(_) => false,
        }
    }

    /// Whether this is the type of a coin of the native currency.
    pub fn is_gas_coin(&self) -> (r: bool)
        ensures
            r == (self@ is GasCoin),
    {
        match self {
            MoveObjectType::GasCoin => true,
            _ => false,
        }
    }

    pub fn is_same_type(&self, other: &MoveObjectType) -> (r: bool)
        ensures
            r == (self@ == other@),
    {
        match (self, other) {
            (MoveObjectType::GasCoin, MoveObjectType::GasCoin) => true,
            (MoveObjectType::Coin(a), MoveObjectType::Coin(b)) => *a == *b,
            (MoveObjectType::Other(a), MoveObjectType::Other(b)) => *a == *b,
            _ => false,
        }
    }

    pub fn duplicate(&self) -> (r: Self)
        ensures
            r@ == self@,
    {
        match self {
            MoveObjectType::GasCoin => MoveObjectType::GasCoin,
            MoveObjectType::Coin(a) => MoveObjectType::Coin(a.clone()),
            MoveObjectType::Other(a) => MoveObjectType::Other(a.clone()),
        }
    }
}

/// The bytes of `v`, copied.
pub fn copy_bytes(v: &Vec<u8>) -> (r: Vec<u8>)
    ensures
        r@ == v@,
{
    let mut r: Vec<u8> = Vec::new();
    let mut i: usize = 0;
    while i < v.len()
        invariant
            i <= v.len(),
            r@ == v@.subrange(0, i as int),
        decreases v.len() - i,
    {
        r.push(v[i]);
        i = i + 1;
        assert(r@ =~= v@.subrange(0, i as int));
    }
    assert(v@.subrange(0, v.len() as int) =~= v@);
    r
}

/// Whether two byte strings are equal.
pub fn bytes_equal(a: &Vec<u8>, b: &Vec<u8>) -> (r: bool)
    ensures
        r == (a@ == b@),
{
    if a.len() != b.len() {
        return false;
    }
    let mut i: usize = 0;
    while i < a.len()
        invariant
            i <= a.len(),
            a.len() == b.len(),
            a@.subrange(0, i as int) == b@.subrange(0, i as int),
        decreases a.len() - i,
    {
        if a[i] != b[i] {
            assert(a@[i as int] != b@[i as int]);
            return false;
        }
        i = i + 1;
        assert(a@.subrange(0, i as int) =~= a@.subrange(0, i - 1).push(a@[i - 1]));
        assert(b@.subrange(0, i as int) =~= b@.subrange(0, i - 1).push(b@[i - 1]));
    }
    assert(a@.subrange(0, a.len() as int) =~= a@);
    assert(b@.subrange(0, b.len() as int) =~= b@);
    true
}

/// A Move value that lives in storage.
#[derive(Clone, Debug, PartialEq, Eq)]
pub struct MoveObject {
    pub id: ObjectID,
    pub type_: MoveObjectType,
    pub has_public_transfer: bool,
    pub contents: Vec<u8>,
}

/// A Move object as a mathematical value.
pub struct MoveObjectView {
    pub id: ObjectID,
    pub type_: MoveObjectTypeView,
    pub has_public_transfer: bool,
    pub contents: Seq<u8>,
}

impl View for MoveObject {
    type V = MoveObjectView;

    open spec fn view(&self) -> MoveObjectView {
        MoveObjectView {
            id: self.id,
            type_: self.type_@,
            has_public_transfer: self.has_public_transfer,
            contents: self.contents@,
        }
    }
}

impl MoveObject {
    pub fn new(id: ObjectID, type_: MoveObjectType, has_public_transfer: bool, contents: Vec<u8>) -> (m:
        Self)
        ensures
            m@ == (MoveObjectView { id, type_: type_@, has_public_transfer, contents: contents@ }),
    {
        MoveObject { id, type_, has_public_transfer, contents }
    }

    pub fn id(&self) -> (id: ObjectID)
        ensures
            id == self@.id,
    {
        self.id
    }

    pub fn type_(&self) -> (t: &MoveObjectType)
        ensures
            t@ == self@.type_,
    {
        &self.type_
    }

    pub fn contents(&self) -> (c: &Vec<u8>)
        ensures
            c@ == self@.contents,
    {
        &self.contents
    }

    pub fn is_type(&self, type_: &MoveObjectType) -> (r: bool)
        ensures
            r == (self@.type_ == type_@),
    {
        self.type_.is_same_type(type_)
    }

    /// Replaces the bytes of a coin by `new_contents`.
    pub fn update_coin_contents(&mut self, new_contents: Vec<u8>)
        requires
            old(self)@.type_.is_coin(),
        ensures
            final(self)@ == (MoveObjectView { contents: new_contents@, ..old(self)@ }),
    {
        self.contents = new_contents;
    }

    pub fn is_same_data(&self, other: &MoveObject) -> (r: bool)
        ensures
            r == (self@ == other@),
    {
        self.id == other.id && self.type_.is_same_type(&other.type_) && self.has_public_transfer
            == other.has_public_transfer && bytes_equal(&self.contents, &other.contents)
    }

    pub fn duplicate(&self) -> (r: Self)
        ensures
            r@ == self@,
    {
        MoveObject {
            id: self.id,
            type_: self.type_.duplicate(),
            has_public_transfer: self.has_public_transfer,
            contents: copy_bytes(&self.contents),
        }
    }
}

/// One compiled module of a package, under its name.
#[derive(Clone, Debug, PartialEq, Eq)]
pub struct MoveModule {
    pub name: String,
    pub bytes: Vec<u8>,
}

/// A module as a mathematical value.
pub struct MoveModuleView {
    pub name: Seq<char>,
    pub bytes: Seq<u8>,
}

impl View for MoveModule {
    type V = MoveModuleView;

    open spec fn view(&self) -> MoveModuleView {
        MoveModuleView { name: self.name@, bytes: self.bytes@ }
    }
}

impl MoveModule {
    pub fn new(name: String, bytes: Vec<u8>) -> (m: Self)
        ensures
            m@ == (MoveModuleView { name: name@, bytes: bytes@ }),
    {
        MoveModule { name, bytes }
    }

    pub fn duplicate(&self) -> (r: Self)
        ensures
            r@ == self@,
    {
        MoveModule { name: self.name.clone(), bytes: copy_bytes(&self.bytes) }
    }
}

/// The views of a list of modules, in order.
pub open spec fn modules_view(modules: Seq<MoveModule>) -> Seq<MoveModuleView> {
    modules.map_values(|m: MoveModule| m@)
}

/// The position of the first module called `name`, if there is one.
pub open spec fn module_position(modules: Seq<MoveModuleView>, name: Seq<char>) -> Option<int>
    decreases modules.len(),
{
    if modules.len() == 0 {
        None
    } else if modules[0].name == name {
        Some(0)
    } else {
        match module_position(modules.drop_first(), name) {
            Some(i) => Some(i + 1),
            None => None,
        }
    }
}

/// A published package of modules.
#[derive(Clone, Debug, PartialEq, Eq)]
pub struct MovePackage {
    pub id: ObjectID,
    pub modules: Vec<MoveModule>,
}

/// A package as a mathematical value.
pub struct MovePackageView {
    pub id: ObjectID,
    pub modules: Seq<MoveModuleView>,
}

impl View for MovePackage {
    type V = MovePackageView;

    open spec fn view(&self) -> MovePackageView {
        MovePackageView { id: self.id, modules: modules_view(self.modules@) }
    }
}

impl MovePackageView {
    /// The bytes of the first module called `name`, if there is one.
    pub open spec fn module_bytes(self, name: Seq<char>) -> Option<Seq<u8>> {
        match module_position(self.modules, name) {
            Some(i) => Some(self.modules[i].bytes),
            None => None,
        }
    }
}

impl MovePackage {
    pub fn new(id: ObjectID, modules: Vec<MoveModule>) -> (p: Self)
        ensures
            p@ == (MovePackageView { id, modules: modules_view(modules@) }),
    {
        MovePackage { id, modules }
    }

    pub fn id(&self) -> (id: ObjectID)
        ensures
            id == self@.id,
    {
        self.id
    }

    /// The bytes of the module called `name`, if the package has one.
    pub fn get_module(&self, name: &String) -> (r: Option<Vec<u8>>)
        ensures
            match self@.module_bytes(name@) {
                Some(bytes) => r is Some && r->0@ == bytes,
                None => r is None,
            },
    {
        let mut i: usize = 0;
        while i < self.modules.len()
            invariant
                i <= self.modules.len(),
                self@.modules == modules_view(self.modules@),
                module_position(self@.modules.subrange(0, i as int), name@) is None,
            decreases self.modules.len() - i,
        {
            if self.modules[i].name == *name {
                proof {
                    lemma_module_position_found(self@.modules, name@, i as int);
                }
                return Some(copy_bytes(&self.modules[i].bytes));
            }
            proof {
                lemma_module_position_extend(self@.modules, name@, i as int);
            }
            i = i + 1;
        }
        assert(self@.modules.subrange(0, i as int) =~= self@.modules);
        None
    }

    pub fn is_same_data(&self, other: &MovePackage) -> (r: bool)
        ensures
            r == (self@ == other@),
    {
        if self.id != other.id || self.modules.len() != other.modules.len() {
            assert(self@.modules.len() == self.modules@.len());
            assert(other@.modules.len() == other.modules@.len());
            return false;
        }
        let mut i: usize = 0;
        while i < self.modules.len()
            invariant
                i <= self.modules.len(),
                self.modules.len() == other.modules.len(),
                self@.modules == modules_view(self.modules@),
                other@.modules == modules_view(other.modules@),
                forall|k: int| 0 <= k < i ==> #[trigger] self@.modules[k] == other@.modules[k],
            decreases self.modules.len() - i,
        {
            let same = self.modules[i].name == other.modules[i].name && bytes_equal(
                &self.modules[i].bytes,
                &other.modules[i].bytes,
            );
            if !same {
                assert(self@.modules[i as int] != other@.modules[i as int]);
                return false;
            }
            i = i + 1;
        }
        assert(self@.modules =~= other@.modules);
        true
    }

    pub fn duplicate(&self) -> (r: Self)
        ensures
            r@ == self@,
    {
        let mut modules: Vec<MoveModule> = Vec::new();
        let mut i: usize = 0;
        while i < self.modules.len()
            invariant
                i <= self.modules.len(),
                modules_view(modules@) == modules_view(self.modules@).subrange(0, i as int),
            decreases self.modules.len() - i,
        {
            let ghost before = modules@;
            let module = self.modules[i].duplicate();
            modules.push(module);
            i = i + 1;
            assert(modules_view(modules@) =~= modules_view(before).push(module@));
            assert(modules_view(self.modules@).subrange(0, i as int) =~= modules_view(
                self.modules@,
            ).subrange(0, i - 1).push(self.modules@[i - 1]@));
        }
        assert(modules_view(self.modules@).subrange(0, i as int) =~= modules_view(self.modules@));
        MovePackage { id: self.id, modules }
    }
}

proof fn lemma_module_position_extend(modules: Seq<MoveModuleView>, name: Seq<char>, i: int)
    requires
        0 <= i < modules.len(),
        module_position(modules.subrange(0, i), name) is None,
        modules[i].name != name,
    ensures
        module_position(modules.subrange(0, i + 1), name) is None,
    decreases i,
{
    let s = modules.subrange(0, i + 1);
    if i == 0 {
        assert(s.drop_first() =~= modules.subrange(0, 0));
    } else {
        let t = modules.subrange(0, i);
        assert(t.drop_first() =~= modules.drop_first().subrange(0, i - 1));
        assert(s.drop_first() =~= modules.drop_first().subrange(0, i));
        assert(t[0] == modules[0]);
        lemma_module_position_extend(modules.drop_first(), name, i - 1);
    }
}

proof fn lemma_module_position_found(modules: Seq<MoveModuleView>, name: Seq<char>, i: int)
    requires
        0 <= i < modules.len(),
        module_position(modules.subrange(0, i), name) is None,
        modules[i].name == name,
    ensures
        module_position(modules, name) == Some(i),
    decreases i,
{
    if i == 0 {
    } else {
        let t = modules.subrange(0, i);
        assert(t.drop_first() =~= modules.drop_first().subrange(0, i - 1));
        assert(t[0] == modules[0]);
        lemma_module_position_found(modules.drop_first(), name, i - 1);
    }
}

/// What an object holds: a Move value or a package.
#[derive(Clone, Debug, PartialEq, Eq)]
pub enum Data {
    Move(MoveObject),
    Package(MovePackage),
}

/// The data of an object as a mathematical value.
pub enum DataView {
    Move(MoveObjectView),
    Package(MovePackageView),
}

impl View for Data {
    type V = DataView;

    open spec fn view(&self) -> DataView {
        match self {
            Data::Move(m) => DataView::Move(m@),
            Data::Package(p) => DataView::Package(p@),
        }
    }
}

impl DataView {
    pub open spec fn id(self) -> ObjectID {
        match self {
            DataView::Move(m) => m.id,
            DataView::Package(p) => p.id,
        }
    }

}

impl Data {
    pub fn try_as_move(&self) -> (r: Option<&MoveObject>)
        ensures
            match self@ {
                DataView::Move(m) => r is Some && r->0@ == m,
                DataView::Package(_) => r is None,
            },
    {
        match self {
            Data::Move(m) => Some(m),
            Data::Package(_) => None,
        }
    }

    /// The type of the Move value, if the data is one.
    pub fn struct_tag(&self) -> (r: Option<MoveObjectType>)
        ensures
            match self@ {
                DataView::Move(m) => r is Some && r->0@ == m.type_,
                DataView::Package(_) => r is None,
            },
    {
        match self {
            Data::Move(m) => Some(m.type_.duplicate()),
            Data::Package(_) => None,
        }
    }

    pub fn is_same_data(&self, other: &Data) -> (r: bool)
        ensures
            r == (self@ == other@),
    {
        match (self, other) {
            (Data::Move(a), Data::Move(b)) => a.is_same_data(b),
            (Data::Package(a), Data::Package(b)) => a.is_same_data(b),
            _ => false,
        }
    }

    pub fn duplicate(&self) -> (r: Self)
        ensures
            r@ == self@,
    {
        match self {
            Data::Move(m) => Data::Move(m.duplicate()),
            Data::Package(p) => Data::Package(p.duplicate()),
        }
    }
}

/// Whether `f` can stand for the digest of objects: it accepts every object,
/// and what it returns depends on the value of the object alone.
pub open spec fn is_digest_fn<F: Fn(&Object) -> ObjectDigest>(f: &F) -> bool {
    &&& forall|o: &Object| #[trigger] call_requires(f, (o,))
    &&& forall|a: &Object, b: &Object, da: ObjectDigest, db: ObjectDigest|
        a@ == b@ && #[trigger] call_ensures(f, (a,), da) && #[trigger] call_ensures(f, (b,), db)
            ==> da == db
}

/// Whether `f` may return `d` for an object of value `o`.
pub open spec fn may_digest<F: Fn(&Object) -> ObjectDigest>(f: &F, o: ObjectView, d: ObjectDigest) -> bool {
    exists|x: Object| x@ == o && #[trigger] call_ensures(f, (&x,), d)
}

/// The digest that `f` gives to an object of value `o`.
pub open spec fn digest_of_view<F: Fn(&Object) -> ObjectDigest>(f: &F, o: ObjectView) -> ObjectDigest {
    choose|d: ObjectDigest| may_digest(f, o, d)
}

/// What a digest function returned for an object is the digest of its value.
pub proof fn lemma_digest_of_view<F: Fn(&Object) -> ObjectDigest>(f: &F, o: Object, d: ObjectDigest)
    requires
        is_digest_fn(f),
        call_ensures(f, (&o,), d),
    ensures
        d == digest_of_view(f, o@),
{
    let e = digest_of_view(f, o@);
    assert(may_digest(f, o@, d));
    assert(may_digest(f, o@, e));
    let x = choose|x: Object| x@ == o@ && #[trigger] call_ensures(f, (&x,), e);
    assert(x@ == o@ && call_ensures(f, (&x,), e));
}

/// Bytes charged for what every object carries besides its data.
pub const OBJECT_METADATA_SIZE: u64 = 80;

/// The sum of two sizes, capped at the largest size.
pub open spec fn capped_sum(a: int, b: int) -> int {
    if a + b > u64::MAX {
        u64::MAX as int
    } else {
        a + b
    }
}

/// The bytes of all modules of a list, names and code together, capped at the largest size.
pub open spec fn modules_size(modules: Seq<MoveModuleView>) -> int
    decreases modules.len(),
{
    if modules.len() == 0 {
        0
    } else {
        capped_sum(
            modules_size(modules.drop_last()),
            capped_sum(modules.last().name.len() as int, modules.last().bytes.len() as int),
        )
    }
}

/// The bytes of a list of modules are a size.
pub proof fn lemma_modules_size_bounds(modules: Seq<MoveModuleView>)
    ensures
        0 <= modules_size(modules) <= u64::MAX,
    decreases modules.len(),
{
    if modules.len() > 0 {
        lemma_modules_size_bounds(modules.drop_last());
    }
}

/// An object of the ledger.
#[derive(Clone, Debug, PartialEq, Eq)]
pub struct Object {
    /// What the object holds.
    pub data: Data,
    /// Who may use it.
    pub owner: Owner,
    /// Its version.
    pub version: SequenceNumber,
    /// The transaction that last changed it.
    pub previous_transaction: TransactionDigest,
    /// What is paid back when its storage is overwritten or freed.
    pub storage_rebate: u64,
}

/// An object as a mathematical value.
pub struct ObjectView {
    pub data: DataView,
    pub owner: Owner,
    pub version: SequenceNumber,
    pub previous_transaction: TransactionDigest,
    pub storage_rebate: u64,
}

impl View for Object {
    type V = ObjectView;

    open spec fn view(&self) -> ObjectView {
        ObjectView {
            data: self.data@,
            owner: self.owner,
            version: self.version,
            previous_transaction: self.previous_transaction,
            storage_rebate: self.storage_rebate,
        }
    }
}

impl ObjectView {
    pub open spec fn id(self) -> ObjectID {
        self.data.id()
    }

    pub open spec fn is_package(self) -> bool {
        self.data is Package
    }

    pub open spec fn is_immutable(self) -> bool {
        self.owner is Immutable
    }

    /// The type of the Move value held, if the object holds one.
    pub open spec fn struct_tag(self) -> Option<MoveObjectTypeView> {
        match self.data {
            DataView::Move(m) => Some(m.type_),
            DataView::Package(_) => None,
        }
    }

    /// The account that owns the object, if an account or an object does.
    pub open spec fn single_owner(self) -> Option<SuiAddress> {
        match self.owner {
            Owner::AddressOwner(a) => Some(a),
            Owner::ObjectOwner(id) => Some(SuiAddress(id.0)),
            _ => None,
        }
    }

    /// The reference to this version of the object, with the digest that `f` gives.
    pub open spec fn object_reference<F: Fn(&Object) -> ObjectDigest>(self, f: &F) -> ObjectRef {
        (self.id(), self.version, digest_of_view(f, self))
    }

    /// The size for which storage is charged.
    pub open spec fn size_for_gas(self) -> int {
        match self.data {
            DataView::Move(m) => capped_sum(OBJECT_METADATA_SIZE as int, m.contents.len() as int),
            DataView::Package(p) => capped_sum(OBJECT_METADATA_SIZE as int, modules_size(p.modules)),
        }
    }
}

/// The size for which storage is charged is a size.
pub proof fn lemma_size_for_gas_bounds(object: ObjectView)
    ensures
        0 <= object.size_for_gas() <= u64::MAX,
{
    match object.data {
        DataView::Move(m) => {},
        DataView::Package(p) => {
            lemma_modules_size_bounds(p.modules);
        },
    }
}

impl Object {
    pub fn new_move(
        data: MoveObject,
        owner: Owner,
        version: SequenceNumber,
        previous_transaction: TransactionDigest,
    ) -> (o: Self)
        ensures
            o@ == (ObjectView {
                data: DataView::Move(data@),
                owner,
                version,
                previous_transaction,
                storage_rebate: 0,
            }),
    {
        Object { data: Data::Move(data), owner, version, previous_transaction, storage_rebate: 0 }
    }

    /// A package object: packages are immutable.
    pub fn new_package(
        package: MovePackage,
        version: SequenceNumber,
        previous_transaction: TransactionDigest,
    ) -> (o: Self)
        ensures
            o@ == (ObjectView {
                data: DataView::Package(package@),
                owner: Owner::Immutable,
                version,
                previous_transaction,
                storage_rebate: 0,
            }),
    {
        Object {
            data: Data::Package(package),
            owner: Owner::Immutable,
            version,
            previous_transaction,
            storage_rebate: 0,
        }
    }

    pub fn id(&self) -> (id: ObjectID)
        ensures
            id == self@.id(),
    {
        match &self.data {
            Data::Move(m) => m.id,
            Data::Package(p) => p.id,
        }
    }

    pub fn version(&self) -> (v: SequenceNumber)
        ensures
            v == self@.version,
    {
        self.version
    }

    pub fn is_package(&self) -> (r: bool)
        ensures
            r == self@.is_package(),
    {
        match &self.data {
            Data::Move(_) => false,
            Data::Package(_) => true,
        }
    }

    pub fn is_immutable(&self) -> (r: bool)
        ensures
            r == self@.is_immutable(),
    {
        match self.owner {
            Owner::Immutable => true,
            _ => false,
        }
    }

    pub fn struct_tag(&self) -> (r: Option<MoveObjectType>)
        ensures
            r is Some == self@.struct_tag() is Some,
            r is Some ==> r->0@ == self@.struct_tag()->0,
    {
        self.data.struct_tag()
    }

    pub fn get_single_owner(&self) -> (r: Option<SuiAddress>)
        ensures
            r == self@.single_owner(),
    {
        match self.owner {
            Owner::AddressOwner(a) => Some(a),
            Owner::ObjectOwner(id) => Some(SuiAddress(id.0)),
            _ => None,
        }
    }

    /// The size for which storage is charged: the metadata and the bytes held.
    pub fn object_size_for_gas_metering(&self) -> (n: u64)
        ensures
            n == self@.size_for_gas(),
    {
        match &self.data {
            Data::Move(m) => add_capped(OBJECT_METADATA_SIZE, m.contents.len() as u64),
            Data::Package(p) => {
                let mut total: u64 = 0;
                let mut i: usize = 0;
                while i < p.modules.len()
                    invariant
                        i <= p.modules.len(),
                        total == modules_size(modules_view(p.modules@).subrange(0, i as int)),
                    decreases p.modules.len() - i,
                {
                    let one = add_capped(
                        p.modules[i].name.as_str().unicode_len() as u64,
                        p.modules[i].bytes.len() as u64,
                    );
                    proof {
                        let all = modules_view(p.modules@);
                        assert(all.subrange(0, i + 1).drop_last() =~= all.subrange(0, i as int));
                    }
                    total = add_capped(total, one);
                    i = i + 1;
                }
                assert(modules_view(p.modules@).subrange(0, i as int) =~= modules_view(p.modules@));
                add_capped(OBJECT_METADATA_SIZE, total)
            },
        }
    }

    /// The reference to this version of the object, with the digest that `digest_of` gives.
    pub fn compute_object_reference<F: Fn(&Object) -> ObjectDigest>(&self, digest_of: &F) -> (r:
        ObjectRef)
        requires
            is_digest_fn(digest_of),
        ensures
            r == self@.object_reference(digest_of),
    {
        let d = digest_of(self);
        proof {
            lemma_digest_of_view(digest_of, *self, d);
        }
        (self.id(), self.version, d)
    }

    pub fn duplicate(&self) -> (r: Self)
        ensures
            r@ == self@,
    {
        Object {
            data: self.data.duplicate(),
            owner: self.owner,
            version: self.version,
            previous_transaction: self.previous_transaction,
            storage_rebate: self.storage_rebate,
        }
    }
}

/// The sum of two sizes, capped at the largest size.
pub fn add_capped(a: u64, b: u64) -> (r: u64)
    ensures
        r == capped_sum(a as int, b as int),
{
    if a > u64::MAX - b {
        u64::MAX
    } else {
        a + b
    }
}

} // verus!
