//! The auction contract's entry-point table.

use vstd::prelude::*;

verus! {

/// The argument and return types the auction's entry points use.
#[derive(Clone, Copy, Debug, PartialEq, Eq, Structural)]
pub enum CLType {
    /// No value.
    Unit,
    /// An eight-bit unsigned integer; the delegation rate.
    U8,
    /// A 64-bit unsigned integer.
    U64,
    /// A 512-bit unsigned integer; an amount of motes.
    U512,
    /// A public key.
    PublicKey,
    /// An optional map from validator public key to weight.
    OptionValidatorWeights,
    /// A map from public key to amount; the rewards map.
    MapPublicKeyToU512,
}

/// Who may call an entry point.
#[derive(Clone, Copy, Debug, PartialEq, Eq, Structural)]
pub enum EntryPointAccess {
    /// Anyone; privileged entry points check the caller themselves.
    Public,
}

/// What context an entry point runs in.
#[derive(Clone, Copy, Debug, PartialEq, Eq, Structural)]
pub enum EntryPointType {
    /// The entry point runs against the addressable entity.
    AddressableEntity,
}

/// One named, typed parameter of an entry point.
#[derive(Clone, Copy, Debug)]
pub struct Parameter {
    /// The argument's name.
    pub name: &'static str,
    /// The argument's type.
    pub cl_type: CLType,
}

impl Parameter {
    /// Builds a parameter.
    pub fn new(name: &'static str, cl_type: CLType) -> (r: Parameter)
        ensures
            r == (Parameter { name, cl_type }),
    {
        Parameter { name, cl_type }
    }
}

/// One entry point of the auction contract.
#[derive(Clone, Debug)]
pub struct EntryPoint {
    /// The method name.
    pub name: &'static str,
    /// The declared arguments, in call order.
    pub args: Vec<Parameter>,
    /// The return type.
    pub ret: CLType,
    /// Who may call.
    pub access: EntryPointAccess,
    /// The context the entry point runs in.
    pub entry_point_type: EntryPointType,
}

impl EntryPoint {
    /// Builds an entry point.
    pub fn new(
        name: &'static str,
        args: Vec<Parameter>,
        ret: CLType,
        access: EntryPointAccess,
        entry_point_type: EntryPointType,
    ) -> (r: EntryPoint)
        ensures
            r.name == name,
            r.args@ == args@,
            r.ret == ret,
            r.access == access,
            r.entry_point_type == entry_point_type,
    {
        EntryPoint { name, args, ret, access, entry_point_type }
    }
}

/// The table of entry points, in declaration order.
#[derive(Clone, Debug)]
pub struct EntryPoints {
    /// The declared entry points.
    pub entry_points: Vec<EntryPoint>,
}

impl EntryPoints {
    /// An empty table.
    pub fn new() -> (r: EntryPoints)
        ensures
            r.entry_points@.len() == 0,
    {
        EntryPoints { entry_points: Vec::new() }
    }

    /// Appends an entry point.
    pub fn add_entry_point(&mut self, entry_point: EntryPoint)
        ensures
            final(self).entry_points@ == old(self).entry_points@.push(entry_point),
    {
        self.entry_points.push(entry_point);
    }
}

/// Creates the auction contract's entry points: the twelve public methods
/// of the auction, each with its declared arguments and return type.
pub fn auction_entry_points() -> (r: EntryPoints)
    ensures
        r.entry_points@.len() == 12,
        r.entry_points@[0].name@ == "get_era_validators"@ && r.entry_points@[0].ret
            == CLType::OptionValidatorWeights && r.entry_points@[0].args@.len() == 0,
        r.entry_points@[1].name@ == "add_bid"@ && r.entry_points@[1].ret == CLType::U512
            && r.entry_points@[1].args@.len() == 5,
        r.entry_points@[1].args@[0].name@ == "public_key"@ && r.entry_points@[1].args@[0].cl_type
            == CLType::PublicKey,
        r.entry_points@[1].args@[1].name@ == "delegation_rate"@
            && r.entry_points@[1].args@[1].cl_type == CLType::U8,
        r.entry_points@[1].args@[2].name@ == "amount"@ && r.entry_points@[1].args@[2].cl_type
            == CLType::U512,
        r.entry_points@[1].args@[3].name@ == "minimum_delegation_amount"@
            && r.entry_points@[1].args@[3].cl_type == CLType::U64,
        r.entry_points@[1].args@[4].name@ == "maximum_delegation_amount"@
            && r.entry_points@[1].args@[4].cl_type == CLType::U64,
        r.entry_points@[2].name@ == "withdraw_bid"@ && r.entry_points@[2].ret == CLType::U512
            && r.entry_points@[2].args@.len() == 2,
        r.entry_points@[2].args@[0].name@ == "public_key"@ && r.entry_points@[2].args@[0].cl_type
            == CLType::PublicKey,
        r.entry_points@[2].args@[1].name@ == "amount"@ && r.entry_points@[2].args@[1].cl_type
            == CLType::U512,
        r.entry_points@[3].name@ == "delegate"@ && r.entry_points@[3].ret == CLType::U512
            && r.entry_points@[3].args@.len() == 3,
        r.entry_points@[3].args@[0].name@ == "delegator"@ && r.entry_points@[3].args@[0].cl_type
            == CLType::PublicKey,
        r.entry_points@[3].args@[1].name@ == "validator"@ && r.entry_points@[3].args@[1].cl_type
            == CLType::PublicKey,
        r.entry_points@[3].args@[2].name@ == "amount"@ && r.entry_points@[3].args@[2].cl_type
            == CLType::U512,
        r.entry_points@[4].name@ == "undelegate"@ && r.entry_points@[4].ret == CLType::U512
            && r.entry_points@[4].args@.len() == 3,
        r.entry_points@[4].args@[0].name@ == "delegator"@ && r.entry_points@[4].args@[0].cl_type
            == CLType::PublicKey,
        r.entry_points@[4].args@[1].name@ == "validator"@ && r.entry_points@[4].args@[1].cl_type
            == CLType::PublicKey,
        r.entry_points@[4].args@[2].name@ == "amount"@ && r.entry_points@[4].args@[2].cl_type
            == CLType::U512,
        r.entry_points@[5].name@ == "redelegate"@ && r.entry_points@[5].ret == CLType::U512
            && r.entry_points@[5].args@.len() == 4,
        r.entry_points@[5].args@[0].name@ == "delegator"@ && r.entry_points@[5].args@[0].cl_type
            == CLType::PublicKey,
        r.entry_points@[5].args@[1].name@ == "validator"@ && r.entry_points@[5].args@[1].cl_type
            == CLType::PublicKey,
        r.entry_points@[5].args@[2].name@ == "amount"@ && r.entry_points@[5].args@[2].cl_type
            == CLType::U512,
        r.entry_points@[5].args@[3].name@ == "new_validator"@
            && r.entry_points@[5].args@[3].cl_type == CLType::PublicKey,
        r.entry_points@[6].name@ == "forced_undelegate"@ && r.entry_points@[6].ret == CLType::Unit
            && r.entry_points@[6].args@.len() == 0,
        r.entry_points@[7].name@ == "run_auction"@ && r.entry_points@[7].ret == CLType::Unit
            && r.entry_points@[7].args@.len() == 1,
        r.entry_points@[7].args@[0].name@ == "era_end_timestamp_millis"@
            && r.entry_points@[7].args@[0].cl_type == CLType::U64,
        r.entry_points@[8].name@ == "slash"@ && r.entry_points@[8].ret == CLType::Unit
            && r.entry_points@[8].args@.len() == 0,
        r.entry_points@[9].name@ == "distribute"@ && r.entry_points@[9].ret == CLType::Unit
            && r.entry_points@[9].args@.len() == 1,
        r.entry_points@[9].args@[0].name@ == "rewards_map"@ && r.entry_points@[9].args@[0].cl_type
            == CLType::MapPublicKeyToU512,
        r.entry_points@[10].name@ == "read_era_id"@ && r.entry_points@[10].ret == CLType::U64
            && r.entry_points@[10].args@.len() == 0,
        r.entry_points@[11].name@ == "activate_bid"@ && r.entry_points@[11].ret == CLType::Unit
            && r.entry_points@[11].args@.len() == 1,
        r.entry_points@[11].args@[0].name@ == "validator_public_key"@
            && r.entry_points@[11].args@[0].cl_type == CLType::PublicKey,
        forall|i: int| #![all_triggers] 0 <= i < 12 ==> r.entry_points@[i].access
            == EntryPointAccess::Public && r.entry_points@[i].entry_point_type
            == EntryPointType::AddressableEntity,
{
    let mut entry_points = EntryPoints::new();

    let entry_point = EntryPoint::new(
        "get_era_validators",
        Vec::new(),
        CLType::OptionValidatorWeights,
        EntryPointAccess::Public,
        EntryPointType::AddressableEntity,
    );
    entry_points.add_entry_point(entry_point);

    let mut args: Vec<Parameter> = Vec::new();
    args.push(Parameter::new("public_key", CLType::PublicKey));
    args.push(Parameter::new("delegation_rate", CLType::U8));
    args.push(Parameter::new("amount", CLType::U512));
    args.push(Parameter::new("minimum_delegation_amount", CLType::U64));
    args.push(Parameter::new("maximum_delegation_amount", CLType::U64));
    let entry_point = EntryPoint::new(
        "add_bid",
        args,
        CLType::U512,
        EntryPointAccess::Public,
        EntryPointType::AddressableEntity,
    );
    entry_points.add_entry_point(entry_point);

    let mut args: Vec<Parameter> = Vec::new();
    args.push(Parameter::new("public_key", CLType::PublicKey));
    args.push(Parameter::new("amount", CLType::U512));
    let entry_point = EntryPoint::new(
        "withdraw_bid",
        args,
        CLType::U512,
        EntryPointAccess::Public,
        EntryPointType::AddressableEntity,
    );
    entry_points.add_entry_point(entry_point);

    let mut args: Vec<Parameter> = Vec::new();
    args.push(Parameter::new("delegator", CLType::PublicKey));
    args.push(Parameter::new("validator", CLType::PublicKey));
    args.push(Parameter::new("amount", CLType::U512));
    let entry_point = EntryPoint::new(
        "delegate",
        args,
        CLType::U512,
        EntryPointAccess::Public,
        EntryPointType::AddressableEntity,
    );
    entry_points.add_entry_point(entry_point);

    let mut args: Vec<Parameter> = Vec::new();
    args.push(Parameter::new("delegator", CLType::PublicKey));
    args.push(Parameter::new("validator", CLType::PublicKey));
    args.push(Parameter::new("amount", CLType::U512));
    let entry_point = EntryPoint::new(
        "undelegate",
        args,
        CLType::U512,
        EntryPointAccess::Public,
        EntryPointType::AddressableEntity,
    );
    entry_points.add_entry_point(entry_point);

    let mut args: Vec<Parameter> = Vec::new();
    args.push(Parameter::new("delegator", CLType::PublicKey));
    args.push(Parameter::new("validator", CLType::PublicKey));
    args.push(Parameter::new("amount", CLType::U512));
    args.push(Parameter::new("new_validator", CLType::PublicKey));
    let entry_point = EntryPoint::new(
        "redelegate",
        args,
        CLType::U512,
        EntryPointAccess::Public,
        EntryPointType::AddressableEntity,
    );
    entry_points.add_entry_point(entry_point);

    let entry_point = EntryPoint::new(
        "forced_undelegate",
        Vec::new(),
        CLType::Unit,
        EntryPointAccess::Public,
        EntryPointType::AddressableEntity,
    );
    entry_points.add_entry_point(entry_point);

    let mut args: Vec<Parameter> = Vec::new();
    args.push(Parameter::new("era_end_timestamp_millis", CLType::U64));
    let entry_point = EntryPoint::new(
        "run_auction",
        args,
        CLType::Unit,
        EntryPointAccess::Public,
        EntryPointType::AddressableEntity,
    );
    entry_points.add_entry_point(entry_point);

    let entry_point = EntryPoint::new(
        "slash",
        Vec::new(),
        CLType::Unit,
        EntryPointAccess::Public,
        EntryPointType::AddressableEntity,
    );
    entry_points.add_entry_point(entry_point);

    let mut args: Vec<Parameter> = Vec::new();
    args.push(Parameter::new("rewards_map", CLType::MapPublicKeyToU512));
    let entry_point = EntryPoint::new(
        "distribute",
        args,
        CLType::Unit,
        EntryPointAccess::Public,
        EntryPointType::AddressableEntity,
    );
    entry_points.add_entry_point(entry_point);

    let entry_point = EntryPoint::new(
        "read_era_id",
        Vec::new(),
        CLType::U64,
        EntryPointAccess::Public,
        EntryPointType::AddressableEntity,
    );
    entry_points.add_entry_point(entry_point);

    let mut args: Vec<Parameter> = Vec::new();
    args.push(Parameter::new("validator_public_key", CLType::PublicKey));
    let entry_point = EntryPoint::new(
        "activate_bid",
        args,
        CLType::Unit,
        EntryPointAccess::Public,
        EntryPointType::AddressableEntity,
    );
    entry_points.add_entry_point(entry_point);

    entry_points
}

} // verus!
