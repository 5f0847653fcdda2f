//! Call data of ERC-20 token contracts, in the Solidity ABI encoding.
use vstd::prelude::*;
use crate::error::GatewayError;

verus! {

/// The parameter types of contract functions: addresses, unsigned
/// numbers of a width in bits, and every other type, which the gateway
/// never encodes.
#[derive(Clone, Copy, Debug, PartialEq, Eq, Structural)]
pub enum AbiParam {
    Address,
    Uint(usize),
    Other,
}

/// An argument of such a call.
#[derive(Clone, Copy, Debug)]
pub enum AbiToken {
    Address([u8; 20]),
    Uint(u128),
}

/// The selector `ethabi::short_signature` gives for a function of this
/// name and parameter types (the first bytes of a Keccak hash).
pub uninterp spec fn short_signature_of(name: Seq<char>, params: Seq<AbiParam>) -> Seq<u8>;

/// The last `n` base-256 digits of `v`, most significant first.
pub open spec fn be_digits(v: nat, n: nat) -> Seq<u8>
    decreases n,
{
    if n == 0 {
        Seq::empty()
    } else {
        be_digits(v / 256, (n - 1) as nat).push((v % 256) as u8)
    }
}

/// The 32-byte word of one argument: an address padded on the left with
/// zeros, a number in big-endian.
pub open spec fn abi_word(t: AbiToken) -> Seq<u8> {
    match t {
        AbiToken::Address(a) => Seq::new(12, |i: int| 0u8) + a@,
        AbiToken::Uint(v) => be_digits(v as nat, 32),
    }
}

/// The encoding of fixed-size arguments: their words one after another.
pub open spec fn abi_encode_static(ts: Seq<AbiToken>) -> Seq<u8>
    decreases ts.len(),
{
    if ts.len() == 0 {
        Seq::empty()
    } else {
        abi_encode_static(ts.drop_last()) + abi_word(ts.last())
    }
}

/// `ethabi::short_signature`: the selector of the function `name` with
/// parameters `params`, as the crate computes it; only named here.
#[verifier::external_body]
fn abi_short_signature(name: &str, params: &Vec<AbiParam>) -> (r: [u8; 4])
    requires
        forall|i: int| 0 <= i < params@.len() ==> params@[i] != AbiParam::Other,
    ensures
        r@ == short_signature_of(name@, params@),
{
    let ps: Vec<ethabi::ParamType> = params.iter().map(|p| match p {
        AbiParam::Address => ethabi::ParamType::Address,
        AbiParam::Uint(n) => ethabi::ParamType::Uint(*n),
        AbiParam::Other => ethabi::ParamType::Bool,
    }).collect();
    ethabi::short_signature(name, &ps)
}

/// `ethabi::encode` of addresses and numbers: the crate writes each as one
/// 32-byte word, in order (addresses left-padded with zeros, numbers
/// big-endian).
#[verifier::external_body]
fn abi_encode(tokens: &Vec<AbiToken>) -> (r: Vec<u8>)
    ensures
        r@ == abi_encode_static(tokens@),
{
    let ts: Vec<ethabi::Token> = tokens.iter().map(|t| match t {
        AbiToken::Address(a) => ethabi::Token::Address(ethabi::Address::from(*a)),
        AbiToken::Uint(v) => ethabi::Token::Uint(ethabi::Uint::from(*v)),
    }).collect();
    ethabi::encode(&ts)
}

/// Call data: the selector, then the encoded arguments.
pub fn call_data(selector: [u8; 4], args: &Vec<u8>) -> (r: Vec<u8>)
    ensures
        r@ == selector@ + args@,
{
    let mut out: Vec<u8> = Vec::new();
    let mut i: usize = 0;
    while i < 4
        invariant
            i <= 4,
            out@ == selector@.take(i as int),
        decreases 4 - i,
    {
        out.push(selector[i]);
        proof {
            assert(selector@.take(i as int + 1) =~= selector@.take(i as int).push(selector@[i as int]));
        }
        i = i + 1;
    }
    let mut j: usize = 0;
    proof {
        assert(selector@.take(4) =~= selector@);
    }
    while j < args.len()
        invariant
            j <= args@.len(),
            out@ == selector@ + args@.take(j as int),
        decreases args@.len() - j,
    {
        out.push(args[j]);
        proof {
            assert(args@.take(j as int + 1) =~= args@.take(j as int).push(args@[j as int]));
        }
        j = j + 1;
    }
    proof {
        assert(args@.take(j as int) =~= args@);
    }
    out
}

/// The parameters of ERC-20 `transfer`.
pub open spec fn transfer_params() -> Seq<AbiParam> {
    seq![AbiParam::Address, AbiParam::Uint(256)]
}

/// The call data of ERC-20 `transfer(to, value)`.
pub fn erc20_transfer_data(to: [u8; 20], value: u128) -> (r: Vec<u8>)
    ensures
        r@ == short_signature_of("transfer"@, transfer_params()) + abi_encode_static(
            seq![AbiToken::Address(to), AbiToken::Uint(value)],
        ),
{
    let params = vec![AbiParam::Address, AbiParam::Uint(256)];
    let selector = abi_short_signature("transfer", &params);
    let tokens = vec![AbiToken::Address(to), AbiToken::Uint(value)];
    let args = abi_encode(&tokens);
    proof {
        assert(params@ =~= transfer_params());
        assert(tokens@ =~= seq![AbiToken::Address(to), AbiToken::Uint(value)]);
    }
    call_data(selector, &args)
}

/// The call data of ERC-20 `balanceOf(owner)`.
pub fn erc20_balance_of_data(owner: [u8; 20]) -> (r: Vec<u8>)
    ensures
        r@ == short_signature_of("balanceOf"@, seq![AbiParam::Address]) + abi_encode_static(
            seq![AbiToken::Address(owner)],
        ),
{
    let params = vec![AbiParam::Address];
    let selector = abi_short_signature("balanceOf", &params);
    let tokens = vec![AbiToken::Address(owner)];
    let args = abi_encode(&tokens);
    proof {
        assert(params@ =~= seq![AbiParam::Address]);
        assert(tokens@ =~= seq![AbiToken::Address(owner)]);
    }
    call_data(selector, &args)
}


/// A function of a contract's ABI: its name and the types of its inputs.
pub struct AbiFunction {
    pub name: String,
    pub inputs: Vec<AbiParam>,
}

/// A contract's ABI: its functions, overloads of a name in their order.
pub struct ContractAbi {
    pub functions: Vec<AbiFunction>,
}

/// The first function of `fs` named `name` (as `Contract::function`
/// picks it).
pub open spec fn find_function(fs: Seq<AbiFunction>, name: Seq<char>) -> Option<AbiFunction>
    decreases fs.len(),
{
    if fs.len() == 0 {
        None
    } else if fs[0].name@ == name {
        Some(fs[0])
    } else {
        find_function(fs.drop_first(), name)
    }
}

/// Whether inputs of these types take an address and a number, as
/// `Token::types_check` checks them (a number fits any width).
pub open spec fn takes_address_and_number(inputs: Seq<AbiParam>) -> bool {
    inputs.len() == 2 && inputs[0] == AbiParam::Address && inputs[1] is Uint
}

/// The first function of `abi` named `name`.
fn function_named<'a>(abi: &'a ContractAbi, name: &String) -> (r: Option<&'a AbiFunction>)
    ensures
        match find_function(abi.functions@, name@) {
            Some(f) => r matches Some(g) && *g == f,
            None => r is None,
        },
{
    let mut i: usize = 0;
    proof {
        assert(abi.functions@.skip(0) =~= abi.functions@);
    }
    while i < abi.functions.len()
        invariant
            i <= abi.functions@.len(),
            find_function(abi.functions@, name@) == find_function(abi.functions@.skip(i as int), name@),
        decreases abi.functions@.len() - i,
    {
        proof {
            assert(abi.functions@.skip(i as int)[0] == abi.functions@[i as int]);
            assert(abi.functions@.skip(i as int).drop_first() =~= abi.functions@.skip(i as int + 1));
        }
        if abi.functions[i].name.eq(name) {
            return Some(&abi.functions[i]);
        }
        i = i + 1;
    }
    proof {
        assert(abi.functions@.skip(i as int) =~= Seq::<AbiFunction>::empty());
    }
    None
}

/// The call data of `transfer(to, value)` through the ABI `abi`, as
/// `Function::encode_input` writes it: the ABI's first function named
/// `transfer` must take an address and a number; the data is its selector
/// (from its name and input types) and the two encoded arguments.
pub fn encode_transfer(abi: &ContractAbi, to: [u8; 20], value: u128) -> (r: Result<Vec<u8>, GatewayError>)
    ensures
        find_function(abi.functions@, "transfer"@) is None ==> r == Err::<Vec<u8>, GatewayError>(
            GatewayError::MissingAbiFunction,
        ),
        find_function(abi.functions@, "transfer"@) matches Some(f) ==> {
            &&& !takes_address_and_number(f.inputs@) ==> r == Err::<Vec<u8>, GatewayError>(
                GatewayError::InvalidAbiInput,
            )
            &&& takes_address_and_number(f.inputs@) ==> (r matches Ok(d) && d@ == short_signature_of(
                f.name@,
                f.inputs@,
            ) + abi_encode_static(seq![AbiToken::Address(to), AbiToken::Uint(value)]))
        },
{
    let f = match function_named(abi, &String::from_str("transfer")) {
        Some(f) => f,
        None => {
            return Err(GatewayError::MissingAbiFunction);
        },
    };
    let ok = f.inputs.len() == 2 && f.inputs[0] == AbiParam::Address && match f.inputs[1] {
        AbiParam::Uint(_) => true,
        _ => false,
    };
    if !ok {
        return Err(GatewayError::InvalidAbiInput);
    }
    let selector = abi_short_signature(f.name.as_str(), &f.inputs);
    let tokens = vec![AbiToken::Address(to), AbiToken::Uint(value)];
    let args = abi_encode(&tokens);
    proof {
        assert(tokens@ =~= seq![AbiToken::Address(to), AbiToken::Uint(value)]);
    }
    Ok(call_data(selector, &args))
}

/// The call data of `balanceOf(owner)` through the ABI `abi`, as
/// `Function::encode_input` writes it: the ABI's first function named
/// `balanceOf` must take one address; the data is its selector and the
/// encoded address.
pub fn encode_balance_of(abi: &ContractAbi, owner: [u8; 20]) -> (r: Result<Vec<u8>, GatewayError>)
    ensures
        find_function(abi.functions@, "balanceOf"@) is None ==> r == Err::<Vec<u8>, GatewayError>(
            GatewayError::MissingAbiFunction,
        ),
        find_function(abi.functions@, "balanceOf"@) matches Some(f) ==> {
            &&& f.inputs@ != seq![AbiParam::Address] ==> r == Err::<Vec<u8>, GatewayError>(
                GatewayError::InvalidAbiInput,
            )
            &&& f.inputs@ == seq![AbiParam::Address] ==> (r matches Ok(d) && d@ == short_signature_of(
                f.name@,
                f.inputs@,
            ) + abi_encode_static(seq![AbiToken::Address(owner)]))
        },
{
    let f = match function_named(abi, &String::from_str("balanceOf")) {
        Some(f) => f,
        None => {
            return Err(GatewayError::MissingAbiFunction);
        },
    };
    let ok = f.inputs.len() == 1 && f.inputs[0] == AbiParam::Address;
    proof {
        if ok {
            assert(f.inputs@ =~= seq![AbiParam::Address]);
        }
    }
    if !ok {
        return Err(GatewayError::InvalidAbiInput);
    }
    let selector = abi_short_signature(f.name.as_str(), &f.inputs);
    let tokens = vec![AbiToken::Address(owner)];
    let args = abi_encode(&tokens);
    proof {
        assert(tokens@ =~= seq![AbiToken::Address(owner)]);
    }
    Ok(call_data(selector, &args))
}

} // verus!
