//! The parameter coercer: matching a unit's declared inputs against a
//! caller-supplied JSON value and producing an ordered, typed token list,
//! or a precise error.

use vstd::prelude::*;

use crate::abi::spec_parse_abi;
use crate::abi::spec_table_lookup;
use crate::abi::ABIUnit;
use crate::abi::ABIUnitView;
use crate::abi::Variable;
use crate::abi::VariableView;
use crate::abi::ABI;
use crate::error::invalid_param;
use crate::error::Error;
use crate::error::ErrorView;
use crate::hex::parse_address;
use crate::hex::parse_uint256;
use crate::hex::spec_parse_address;
use crate::hex::spec_parse_uint256;
use crate::json::json_len;
use crate::json::jview;
use crate::json::jview_seq;
use crate::json::lemma_jview_seq;
use crate::json::num_view;
use crate::json::JsonNum;
use crate::json::JsonVal;
use crate::json::JsonView;
use crate::json::NumView;
use crate::render::json_text;
use crate::render::spec_json_text;
use crate::text::convert_failed_msg;
use crate::text::prefixed_msg;
use crate::text::spec_convert_failed_msg;
use crate::text::str_starts_with;
use crate::token::lemma_tview_seq;
use crate::token::lemma_tview_seq_push;
use crate::token::tview;
use crate::token::tview_seq;
use crate::token::Token;
use crate::token::TokenView;

verus! {

/// The view of a single-token result.
pub open spec fn token_result_view(r: Result<Token, Error>) -> Result<TokenView, ErrorView> {
    match r {
        Ok(t) => Ok(tview(t)),
        Err(e) => Err(e@),
    }
}

/// The view of a token-list result.
pub open spec fn params_result_view(r: Result<Vec<Token>, Error>) -> Result<
    Seq<TokenView>,
    ErrorView,
> {
    match r {
        Ok(ts) => Ok(tview_seq(ts@)),
        Err(e) => Err(e@),
    }
}

/// What a JSON number converts to: the unsigned-64 token of its value when
/// it is unsigned-64-integer valued, the f64 error otherwise.
pub open spec fn spec_num_to_token(n: NumView) -> Result<TokenView, ErrorView> {
    match n {
        NumView::Uint(u) => Ok(TokenView::Uint64(u)),
        NumView::Int(_) => Err(ErrorView::InvalidParam("f64 is not supported"@)),
        NumView::Float(_) => Err(ErrorView::InvalidParam("f64 is not supported"@)),
    }
}

/// What a string value converts to under a declared type, dispatched on
/// the type's prefix: an address, a 256-bit unsigned integer, or the
/// no-conversion-rule error; a parse failure carries the parser's message.
pub open spec fn spec_string_to_token(s: Seq<char>, ty: Seq<char>) -> Result<
    TokenView,
    ErrorView,
> {
    if "address"@.is_prefix_of(ty) {
        match spec_parse_address(s) {
            Some(b) => Ok(TokenView::Address(b)),
            None => Err(ErrorView::AnyError("invalid address: "@ + s)),
        }
    } else if "uint256"@.is_prefix_of(ty) {
        match spec_parse_uint256(s) {
            Some(b) => Ok(TokenView::Uint256(b)),
            None => Err(ErrorView::AnyError("invalid uint256: "@ + s)),
        }
    } else {
        Err(ErrorView::InvalidParam(spec_convert_failed_msg(s, ty)))
    }
}

/// What one JSON value converts to under a declared type. Array elements
/// all use the same declared type; a null or object value never converts,
/// and the error names it by its compact JSON text.
pub open spec fn spec_to_token(v: JsonView, ty: Seq<char>) -> Result<TokenView, ErrorView>
    decreases v, 0int,
{
    match v {
        JsonView::Bool(b) => Ok(TokenView::Bool(b)),
        JsonView::Num(n) => spec_num_to_token(n),
        JsonView::Str(s) => spec_string_to_token(s, ty),
        JsonView::Arr(a) => match spec_tokens_from(a, ty, 0) {
            Ok(ts) => Ok(TokenView::Arr(ts)),
            Err(e) => Err(e),
        },
        _ => Err(
            ErrorView::InvalidParam("Null and Map types are unsupported, data: "@ + spec_json_text(v)),
        ),
    }
}

/// What the array elements from position `i` on convert to under one
/// declared type: the tokens in order, or the first error.
pub open spec fn spec_tokens_from(a: Seq<JsonView>, ty: Seq<char>, i: int) -> Result<
    Seq<TokenView>,
    ErrorView,
>
    decreases a, a.len() - i,
{
    if i < 0 || i >= a.len() {
        Ok(Seq::empty())
    } else {
        match spec_to_token(a[i], ty) {
            Err(e) => Err(e),
            Ok(t) => match spec_tokens_from(a, ty, i + 1) {
                Err(e) => Err(e),
                Ok(ts) => Ok(seq![t] + ts),
            },
        }
    }
}

/// What the positional pairing of declared inputs and array elements from
/// position `i` on converts to: one token per input, in declaration order,
/// or the first error.
pub open spec fn spec_params_from(
    inputs: Seq<VariableView>,
    elems: Seq<JsonView>,
    i: int,
) -> Result<Seq<TokenView>, ErrorView>
    decreases inputs.len() - i,
{
    if i < 0 || i >= inputs.len() {
        Ok(Seq::empty())
    } else {
        match spec_to_token(elems[i], inputs[i].declared_type) {
            Err(e) => Err(e),
            Ok(t) => match spec_params_from(inputs, elems, i + 1) {
                Err(e) => Err(e),
                Ok(ts) => Ok(seq![t] + ts),
            },
        }
    }
}

/// What coercing a JSON value against a unit's declared inputs gives.
///
/// Absent inputs give the empty list whatever the value holds. Otherwise
/// the value's computed length must equal the declared count; then the
/// value's shape decides: scalars fill a single input, an array fills the
/// inputs positionally, and an object is unsupported.
pub open spec fn spec_to_params(u: ABIUnitView, v: JsonView) -> Result<Seq<TokenView>, ErrorView> {
    match u.inputs {
        None => Ok(Seq::empty()),
        Some(inputs) => {
            if inputs.len() != json_len(v) {
                Err(ErrorView::InvalidParam("params of abi parse failed"@))
            } else if inputs.len() == 0 {
                Ok(Seq::empty())
            } else {
                match v {
                    JsonView::Null => Ok(Seq::empty()),
                    JsonView::Bool(b) => Ok(seq![TokenView::Bool(b)]),
                    JsonView::Num(n) => match spec_num_to_token(n) {
                        Ok(t) => Ok(seq![t]),
                        Err(e) => Err(e),
                    },
                    JsonView::Str(s) => match spec_string_to_token(
                        s,
                        inputs[0].declared_type,
                    ) {
                        Ok(t) => Ok(seq![t]),
                        Err(e) => Err(e),
                    },
                    JsonView::Arr(a) => spec_params_from(inputs, a, 0),
                    JsonView::Obj(_) => Err(ErrorView::InvalidParam("Map type unsupported"@)),
                }
            }
        },
    }
}

/// What resolving a function by name in parsed ABI text and coercing the
/// given value against it gives.
pub open spec fn spec_parse_params(abi_text: Seq<char>, fn_name: Seq<char>, v: JsonView) -> Result<
    Seq<TokenView>,
    ErrorView,
> {
    match spec_parse_abi(abi_text) {
        Err(e) => Err(e),
        Ok(abi) => match spec_table_lookup(abi.function, fn_name) {
            None => Err(ErrorView::InvalidParam("function not found in abi"@)),
            Some(u) => spec_to_params(u, v),
        },
    }
}

impl ABIUnit {
    /// Converts a JSON number: only unsigned-64-integer-valued numbers are
    /// accepted; anything else fails with the f64 error.
    pub fn num_to_token(num: &JsonNum) -> (r: Result<Token, Error>)
        ensures
            token_result_view(r) == spec_num_to_token(num_view(*num)),
    {
        match num {
            JsonNum::Uint(u) => Ok(Token::Uint64(*u)),
            _ => Err(invalid_param("f64 is not supported")),
        }
    }

    /// Converts a string value by the declared type's prefix: `address`
    /// parses as a 160-bit address, `uint256` as a 256-bit unsigned
    /// integer; any other declared type has no conversion rule.
    pub fn string_to_token(token_str: &str, variable: &Variable) -> (r: Result<Token, Error>)
        ensures
            token_result_view(r) == spec_string_to_token(token_str@, variable@.declared_type),
    {
        if str_starts_with(variable.declared_type.as_str(), "address") {
            match parse_address(token_str) {
                Some(a) => Ok(Token::Address(a)),
                None => Err(Error::AnyError(prefixed_msg("invalid address: ", token_str))),
            }
        } else if str_starts_with(variable.declared_type.as_str(), "uint256") {
            match parse_uint256(token_str) {
                Some(u) => Ok(Token::Uint256(u)),
                None => Err(Error::AnyError(prefixed_msg("invalid uint256: ", token_str))),
            }
        } else {
            Err(
                Error::InvalidParam(
                    convert_failed_msg(token_str, variable.declared_type.as_str()),
                ),
            )
        }
    }

    /// Converts one JSON value under a declared variable; array elements
    /// are converted recursively, each under the same declared type. A
    /// null or object value fails, named by its compact JSON text.
    #[verifier::loop_isolation(false)]
    pub fn to_token(value: &JsonVal, variable: &Variable) -> (r: Result<Token, Error>)
        ensures
            token_result_view(r) == spec_to_token(jview(*value), variable@.declared_type),
        decreases *value,
    {
        match value {
            JsonVal::Bool(b) => Ok(Token::Bool(*b)),
            JsonVal::Num(n) => Self::num_to_token(n),
            JsonVal::Str(s) => Self::string_to_token(s.as_str(), variable),
            JsonVal::Arr(arr) => {
                let ghost av = jview_seq(arr@);
                let ghost ty = variable@.declared_type;
                proof {
                    lemma_jview_seq(arr@);
                }
                let n = arr.len();
                let mut tokens: Vec<Token> = Vec::new();
                let mut i: usize = 0;
                proof {
                    assert(tview_seq(tokens@) =~= Seq::<TokenView>::empty());
                    match spec_tokens_from(av, ty, 0) {
                        Ok(rest) => {
                            assert(tview_seq(tokens@) + rest =~= rest);
                        },
                        Err(_) => {},
                    }
                }
                while i < n
                    invariant
                        i <= n,
                        tokens@.len() == i,
                        match spec_tokens_from(av, ty, i as int) {
                            Ok(rest) => spec_tokens_from(av, ty, 0) == Ok::<
                                Seq<TokenView>,
                                ErrorView,
                            >(tview_seq(tokens@) + rest),
                            Err(e) => spec_tokens_from(av, ty, 0) == Err::<
                                Seq<TokenView>,
                                ErrorView,
                            >(e),
                        },
                    decreases n - i,
                {
                    let t = match Self::to_token(&arr[i], variable) {
                        Ok(t) => t,
                        Err(e) => {
                            return Err(e);
                        },
                    };
                    proof {
                        lemma_tview_seq_push(tokens@, t);
                        match spec_tokens_from(av, ty, i + 1) {
                            Ok(rest) => {
                                assert(tview_seq(tokens@) + (seq![tview(t)] + rest) =~= tview_seq(
                                    tokens@.push(t),
                                ) + rest);
                            },
                            Err(_) => {},
                        }
                    }
                    tokens.push(t);
                    i = i + 1;
                }
                proof {
                    assert(tview_seq(tokens@) + Seq::<TokenView>::empty() =~= tview_seq(tokens@));
                }
                Ok(Token::Arr(tokens))
            },
            _ => {
                let txt = json_text(value);
                Err(
                    Error::InvalidParam(
                        prefixed_msg("Null and Map types are unsupported, data: ", txt.as_str()),
                    ),
                )
            },
        }
    }

    /// Coerces a JSON value against this unit's declared inputs into an
    /// ordered token list.
    ///
    /// Absent inputs give the empty list and the value is ignored. The
    /// value's computed length must otherwise equal the declared count.
    /// A scalar fills a single input, an array fills the inputs
    /// positionally in declaration order, and an object always fails.
    #[verifier::loop_isolation(false)]
    pub fn to_params(&self, json: &JsonVal) -> (r: Result<Vec<Token>, Error>)
        ensures
            params_result_view(r) == spec_to_params(self@, jview(*json)),
    {
        let inputs = match &self.inputs {
            None => {
                let empty: Vec<Token> = Vec::new();
                proof {
                    assert(tview_seq(empty@) =~= Seq::<TokenView>::empty());
                }
                return Ok(empty);
            },
            Some(ins) => ins,
        };
        let json_len: usize = match json {
            JsonVal::Arr(a) => a.len(),
            JsonVal::Obj(m) => m.len(),
            JsonVal::Null => 0,
            _ => 1,
        };
        proof {
            crate::json::lemma_json_len(*json);
        }
        if inputs.len() != json_len {
            return Err(invalid_param("params of abi parse failed"));
        }
        if inputs.len() == 0 {
            let empty: Vec<Token> = Vec::new();
            proof {
                assert(tview_seq(empty@) =~= Seq::<TokenView>::empty());
            }
            return Ok(empty);
        }
        match json {
            JsonVal::Null => {
                let empty: Vec<Token> = Vec::new();
                proof {
                    assert(tview_seq(empty@) =~= Seq::<TokenView>::empty());
                }
                Ok(empty)
            },
            JsonVal::Bool(b) => {
                let mut params: Vec<Token> = Vec::new();
                params.push(Token::Bool(*b));
                proof {
                    lemma_tview_seq(params@);
                    assert(tview_seq(params@) =~= seq![TokenView::Bool(*b)]);
                }
                Ok(params)
            },
            JsonVal::Num(n) => match Self::num_to_token(n) {
                Ok(t) => {
                    let ghost tv = tview(t);
                    let mut params: Vec<Token> = Vec::new();
                    params.push(t);
                    proof {
                        lemma_tview_seq(params@);
                        assert(tview_seq(params@) =~= seq![tv]);
                    }
                    Ok(params)
                },
                Err(e) => Err(e),
            },
            JsonVal::Str(s) => match Self::string_to_token(s.as_str(), &inputs[0]) {
                Ok(t) => {
                    let ghost tv = tview(t);
                    let mut params: Vec<Token> = Vec::new();
                    params.push(t);
                    proof {
                        assert(crate::abi::var_views(inputs@)[0] == inputs@[0]@);
                        lemma_tview_seq(params@);
                        assert(tview_seq(params@) =~= seq![tv]);
                    }
                    Ok(params)
                },
                Err(e) => Err(e),
            },
            JsonVal::Arr(a) => {
                let ghost av = jview_seq(a@);
                let ghost iv = crate::abi::var_views(inputs@);
                proof {
                    lemma_jview_seq(a@);
                }
                let count = inputs.len();
                let mut params: Vec<Token> = Vec::new();
                let mut idx: usize = 0;
                proof {
                    assert(tview_seq(params@) =~= Seq::<TokenView>::empty());
                    match spec_params_from(iv, av, 0) {
                        Ok(rest) => {
                            assert(tview_seq(params@) + rest =~= rest);
                        },
                        Err(_) => {},
                    }
                }
                while idx < count
                    invariant
                        idx <= count,
                        count == inputs@.len(),
                        count == a@.len(),
                        av == jview_seq(a@),
                        iv == crate::abi::var_views(inputs@),
                        av.len() == count,
                        iv.len() == count,
                        forall|j: int| 0 <= j < count ==> av[j] == jview(a@[j]),
                        forall|j: int| 0 <= j < count ==> iv[j] == inputs@[j]@,
                        params@.len() == idx,
                        match spec_params_from(iv, av, idx as int) {
                            Ok(rest) => spec_params_from(iv, av, 0) == Ok::<
                                Seq<TokenView>,
                                ErrorView,
                            >(tview_seq(params@) + rest),
                            Err(e) => spec_params_from(iv, av, 0) == Err::<
                                Seq<TokenView>,
                                ErrorView,
                            >(e),
                        },
                    decreases count - idx,
                {
                    let tr = Self::to_token(&a[idx], &inputs[idx]);
                    proof {
                        assert(iv[idx as int] == inputs@[idx as int]@);
                        assert(av[idx as int] == jview(a@[idx as int]));
                    }
                    let t = match tr {
                        Ok(t) => t,
                        Err(e) => {
                            return Err(e);
                        },
                    };
                    proof {
                        lemma_tview_seq_push(params@, t);
                        match spec_params_from(iv, av, idx + 1) {
                            Ok(rest) => {
                                assert(tview_seq(params@) + (seq![tview(t)] + rest) =~= tview_seq(
                                    params@.push(t),
                                ) + rest);
                            },
                            Err(_) => {},
                        }
                    }
                    params.push(t);
                    idx = idx + 1;
                }
                proof {
                    assert(tview_seq(params@) + Seq::<TokenView>::empty() =~= tview_seq(params@));
                }
                Ok(params)
            },
            JsonVal::Obj(_) => Err(invalid_param("Map type unsupported")),
        }
    }
}

/// Resolves a function by name in raw ABI text and coerces the given value
/// against its declared inputs: the pure function boundary of the library.
pub fn parse_params(contract_abi: &str, fn_name: &str, fn_params: &JsonVal) -> (r: Result<
    Vec<Token>,
    Error,
>)
    ensures
        params_result_view(r) == spec_parse_params(contract_abi@, fn_name@, jview(*fn_params)),
{
    let abi = match ABI::parse(contract_abi) {
        Ok(a) => a,
        Err(e) => {
            return Err(e);
        },
    };
    let unit = match abi.get_function(fn_name) {
        Some(u) => u,
        None => {
            return Err(invalid_param("function not found in abi"));
        },
    };
    unit.to_params(fn_params)
}

/// Law: whenever inputs are declared and the value's computed length
/// differs from their count, coercion fails with the arity error.
pub proof fn lemma_arity_mismatch_fails(u: ABIUnitView, v: JsonView)
    requires
        u.inputs matches Some(inputs) && inputs.len() != json_len(v),
    ensures
        spec_to_params(u, v) == Err::<Seq<TokenView>, ErrorView>(
            ErrorView::InvalidParam("params of abi parse failed"@),
        ),
{
}

/// Law: a number that is not unsigned-64-integer valued fails with the f64
/// error; an integer within unsigned 64-bit range converts to the
/// unsigned-64 token of its value.
pub proof fn lemma_num_conversion(n: NumView)
    ensures
        n matches NumView::Uint(u) ==> spec_num_to_token(n) == Ok::<TokenView, ErrorView>(
            TokenView::Uint64(u),
        ),
        !(n is Uint) ==> spec_num_to_token(n) == Err::<TokenView, ErrorView>(
            ErrorView::InvalidParam("f64 is not supported"@),
        ),
{
}

/// The number of inputs a unit declares; zero when the list is absent.
pub open spec fn declared_input_count(u: ABIUnitView) -> nat {
    match u.inputs {
        Some(inputs) => inputs.len(),
        None => 0,
    }
}

/// Law: an object value never coerces against declared inputs: when the
/// entry count matches the declared count it fails with the map-type
/// error, and otherwise with the arity error. (A unit with absent or empty
/// inputs never reaches a conversion, so those units are left out here.)
pub proof fn lemma_object_value_fails(u: ABIUnitView, entries: Seq<(Seq<char>, JsonView)>)
    requires
        u.inputs matches Some(inputs) && inputs.len() >= 1,
    ensures
        entries.len() == declared_input_count(u) ==> spec_to_params(u, JsonView::Obj(entries))
            == Err::<Seq<TokenView>, ErrorView>(
            ErrorView::InvalidParam("Map type unsupported"@),
        ),
        entries.len() != declared_input_count(u) ==> spec_to_params(u, JsonView::Obj(entries))
            == Err::<Seq<TokenView>, ErrorView>(
            ErrorView::InvalidParam("params of abi parse failed"@),
        ),
{
}

} // verus!
