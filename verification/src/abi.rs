//! The ABI document model: a raw ABI description is a JSON array of unit
//! descriptions. Parsing partitions the units, extracts the first
//! constructor, and builds a function table keyed by unit name, keeping the
//! first definition of each name.

use vstd::prelude::*;

use crate::error::abi_parse_error;
use crate::error::Error;
use crate::error::ErrorView;
use crate::json::jview;
use crate::json::jview_entries;
use crate::json::jview_seq;
use crate::json::lemma_jview_entries;
use crate::json::lemma_jview_seq;
use crate::json::JsonVal;
use crate::json::JsonView;
use crate::jsonio::json_doc_of;
use crate::jsonio::parse_json_text;
use crate::text::prefixed_msg;
use crate::text::seq_ci_eq;
use crate::text::str_eq;
use crate::text::str_eq_ci;

verus! {

/// The kind discriminant of an ABI unit.
#[derive(Clone, Copy, PartialEq, Eq, Structural, Debug)]
pub enum UnitType {
    EVENT,
    ERROR,
    CONSTRUCTOR,
    FUNCTION,
    RECEIVE,
    FALLBACK,
}

/// One declared input or output of a unit. Immutable once parsed.
#[derive(Debug)]
pub struct Variable {
    pub name: String,
    pub declared_type: String,
    pub internal_type: String,
}

/// The mathematical view of a `Variable`.
pub struct VariableView {
    pub name: Seq<char>,
    pub declared_type: Seq<char>,
    pub internal_type: Seq<char>,
}

impl View for Variable {
    type V = VariableView;

    open spec fn view(&self) -> VariableView {
        VariableView {
            name: self.name@,
            declared_type: self.declared_type@,
            internal_type: self.internal_type@,
        }
    }
}

/// One entry of an ABI document: a constructor, function, event, error,
/// receive or fallback descriptor. Absent `inputs` means zero inputs.
#[derive(Debug)]
pub struct ABIUnit {
    pub kind: UnitType,
    pub name: Option<String>,
    pub anonymous: Option<bool>,
    pub inputs: Option<Vec<Variable>>,
    pub outputs: Option<Vec<Variable>>,
    pub state_mutability: Option<String>,
}

/// The mathematical view of an `ABIUnit`.
pub struct ABIUnitView {
    pub kind: UnitType,
    pub name: Option<Seq<char>>,
    pub anonymous: Option<bool>,
    pub inputs: Option<Seq<VariableView>>,
    pub outputs: Option<Seq<VariableView>>,
    pub state_mutability: Option<Seq<char>>,
}

/// The views of a sequence of variables, element for element.
pub open spec fn var_views(s: Seq<Variable>) -> Seq<VariableView> {
    s.map_values(|v: Variable| v@)
}

impl View for ABIUnit {
    type V = ABIUnitView;

    open spec fn view(&self) -> ABIUnitView {
        ABIUnitView {
            kind: self.kind,
            name: match self.name {
                Some(n) => Some(n@),
                None => None,
            },
            anonymous: self.anonymous,
            inputs: match self.inputs {
                Some(vs) => Some(var_views(vs@)),
                None => None,
            },
            outputs: match self.outputs {
                Some(vs) => Some(var_views(vs@)),
                None => None,
            },
            state_mutability: match self.state_mutability {
                Some(m) => Some(m@),
                None => None,
            },
        }
    }
}

/// A parsed ABI document: its constructor and its function table. The table
/// holds the function units in first-occurrence order, one per name.
#[derive(Debug)]
pub struct ABI {
    pub constructor: ABIUnit,
    pub function: Vec<ABIUnit>,
}

/// The mathematical view of an `ABI`.
pub struct ABIView {
    pub constructor: ABIUnitView,
    pub function: Seq<ABIUnitView>,
}

/// The views of a sequence of units, element for element.
pub open spec fn unit_views(s: Seq<ABIUnit>) -> Seq<ABIUnitView> {
    s.map_values(|u: ABIUnit| u@)
}

impl View for ABI {
    type V = ABIView;

    open spec fn view(&self) -> ABIView {
        ABIView { constructor: self.constructor@, function: unit_views(self.function@) }
    }
}

/// The first value under the given key of a JSON object, if any.
pub open spec fn obj_lookup(entries: Seq<(Seq<char>, JsonView)>, key: Seq<char>) -> Option<
    JsonView,
>
    decreases entries.len(),
{
    if entries.len() == 0 {
        None
    } else if entries[0].0 == key {
        Some(entries[0].1)
    } else {
        obj_lookup(entries.subrange(1, entries.len() as int), key)
    }
}

/// The unit kind a discriminant string names, compared without regard to
/// ASCII case.
pub open spec fn spec_unit_type_of(s: Seq<char>) -> Option<UnitType> {
    if seq_ci_eq(s, "event"@) {
        Some(UnitType::EVENT)
    } else if seq_ci_eq(s, "error"@) {
        Some(UnitType::ERROR)
    } else if seq_ci_eq(s, "constructor"@) {
        Some(UnitType::CONSTRUCTOR)
    } else if seq_ci_eq(s, "function"@) {
        Some(UnitType::FUNCTION)
    } else if seq_ci_eq(s, "receive"@) {
        Some(UnitType::RECEIVE)
    } else if seq_ci_eq(s, "fallback"@) {
        Some(UnitType::FALLBACK)
    } else {
        None
    }
}

/// The message reported when a unit field holds a value of the wrong shape.
pub open spec fn spec_field_err_msg(key: Seq<char>) -> Seq<char> {
    "invalid abi unit field: "@ + key
}

/// What decoding one declared variable from JSON gives: its three required
/// string fields, or a parse error.
pub open spec fn spec_var_of(v: JsonView) -> Result<VariableView, ErrorView> {
    match v {
        JsonView::Obj(entries) => match obj_lookup(entries, "name"@) {
            Some(JsonView::Str(n)) => match obj_lookup(entries, "type"@) {
                Some(JsonView::Str(t)) => match obj_lookup(entries, "internalType"@) {
                    Some(JsonView::Str(it)) => Ok(
                        VariableView { name: n, declared_type: t, internal_type: it },
                    ),
                    _ => Err(ErrorView::ABIParseError("invalid abi variable"@)),
                },
                _ => Err(ErrorView::ABIParseError("invalid abi variable"@)),
            },
            _ => Err(ErrorView::ABIParseError("invalid abi variable"@)),
        },
        _ => Err(ErrorView::ABIParseError("invalid abi variable"@)),
    }
}

/// What decoding the variables from position `i` on gives: the remaining
/// variables in order, or the first error.
pub open spec fn spec_vars_from(a: Seq<JsonView>, i: int) -> Result<Seq<VariableView>, ErrorView>
    decreases a.len() - i,
{
    if i < 0 || i >= a.len() {
        Ok(Seq::empty())
    } else {
        match spec_var_of(a[i]) {
            Err(e) => Err(e),
            Ok(v) => match spec_vars_from(a, i + 1) {
                Err(e) => Err(e),
                Ok(vs) => Ok(seq![v] + vs),
            },
        }
    }
}

/// What an optional list-of-variables field gives: absent or null counts as
/// absent, an array is decoded, anything else is a parse error.
pub open spec fn spec_vars_field(entries: Seq<(Seq<char>, JsonView)>, key: Seq<char>) -> Result<
    Option<Seq<VariableView>>,
    ErrorView,
> {
    match obj_lookup(entries, key) {
        None => Ok(None),
        Some(JsonView::Null) => Ok(None),
        Some(JsonView::Arr(a)) => match spec_vars_from(a, 0) {
            Err(e) => Err(e),
            Ok(vs) => Ok(Some(vs)),
        },
        Some(_) => Err(ErrorView::ABIParseError(spec_field_err_msg(key))),
    }
}

/// What an optional string field gives.
pub open spec fn spec_string_field(entries: Seq<(Seq<char>, JsonView)>, key: Seq<char>) -> Result<
    Option<Seq<char>>,
    ErrorView,
> {
    match obj_lookup(entries, key) {
        None => Ok(None),
        Some(JsonView::Null) => Ok(None),
        Some(JsonView::Str(s)) => Ok(Some(s)),
        Some(_) => Err(ErrorView::ABIParseError(spec_field_err_msg(key))),
    }
}

/// What an optional boolean field gives.
pub open spec fn spec_bool_field(entries: Seq<(Seq<char>, JsonView)>, key: Seq<char>) -> Result<
    Option<bool>,
    ErrorView,
> {
    match obj_lookup(entries, key) {
        None => Ok(None),
        Some(JsonView::Null) => Ok(None),
        Some(JsonView::Bool(b)) => Ok(Some(b)),
        Some(_) => Err(ErrorView::ABIParseError(spec_field_err_msg(key))),
    }
}

/// What decoding one ABI unit from JSON gives: the unit must be an object
/// whose `type` field names a kind; the remaining fields are optional.
pub open spec fn spec_unit_of(v: JsonView) -> Result<ABIUnitView, ErrorView> {
    match v {
        JsonView::Obj(entries) => match obj_lookup(entries, "type"@) {
            None => Err(ErrorView::ABIParseError("missing abi unit type"@)),
            Some(JsonView::Str(ts)) => match spec_unit_type_of(ts) {
                None => Err(ErrorView::ABIParseError("unknown abi unit type"@)),
                Some(kind) => match spec_string_field(entries, "name"@) {
                    Err(e) => Err(e),
                    Ok(name) => match spec_bool_field(entries, "anonymous"@) {
                        Err(e) => Err(e),
                        Ok(anonymous) => match spec_vars_field(entries, "inputs"@) {
                            Err(e) => Err(e),
                            Ok(inputs) => match spec_vars_field(entries, "outputs"@) {
                                Err(e) => Err(e),
                                Ok(outputs) => match spec_string_field(
                                    entries,
                                    "stateMutability"@,
                                ) {
                                    Err(e) => Err(e),
                                    Ok(state_mutability) => Ok(
                                        ABIUnitView {
                                            kind,
                                            name,
                                            anonymous,
                                            inputs,
                                            outputs,
                                            state_mutability,
                                        },
                                    ),
                                },
                            },
                        },
                    },
                },
            },
            Some(_) => Err(ErrorView::ABIParseError(spec_field_err_msg("type"@))),
        },
        _ => Err(ErrorView::ABIParseError("abi unit is not an object"@)),
    }
}

/// What decoding the units from position `i` on gives.
pub open spec fn spec_units_from(a: Seq<JsonView>, i: int) -> Result<Seq<ABIUnitView>, ErrorView>
    decreases a.len() - i,
{
    if i < 0 || i >= a.len() {
        Ok(Seq::empty())
    } else {
        match spec_unit_of(a[i]) {
            Err(e) => Err(e),
            Ok(u) => match spec_units_from(a, i + 1) {
                Err(e) => Err(e),
                Ok(us) => Ok(seq![u] + us),
            },
        }
    }
}

/// What decoding a whole ABI document gives: the document must be an array
/// of units.
pub open spec fn spec_units_of(doc: JsonView) -> Result<Seq<ABIUnitView>, ErrorView> {
    match doc {
        JsonView::Arr(a) => spec_units_from(a, 0),
        _ => Err(ErrorView::ABIParseError("abi document is not an array"@)),
    }
}

/// The name a unit is indexed under: its name, or the empty string when it
/// has none.
pub open spec fn unit_key(u: ABIUnitView) -> Seq<char> {
    match u.name {
        Some(n) => n,
        None => Seq::empty(),
    }
}

/// Whether the table already holds a unit under the given key.
pub open spec fn table_has_key(t: Seq<ABIUnitView>, k: Seq<char>) -> bool {
    exists|i: int| 0 <= i < t.len() && unit_key(t[i]) == k
}

/// The function table of a unit list: the function-kind units in order of
/// first occurrence, keeping the first definition of each key.
pub open spec fn spec_fn_table(units: Seq<ABIUnitView>) -> Seq<ABIUnitView>
    decreases units.len(),
{
    if units.len() == 0 {
        Seq::empty()
    } else {
        let prefix = spec_fn_table(units.drop_last());
        let u = units.last();
        if u.kind == UnitType::FUNCTION && !table_has_key(prefix, unit_key(u)) {
            prefix.push(u)
        } else {
            prefix
        }
    }
}

/// The first constructor-kind unit at position `i` or later, if any.
pub open spec fn spec_first_constructor(units: Seq<ABIUnitView>, i: int) -> Option<ABIUnitView>
    decreases units.len() - i,
{
    if i < 0 || i >= units.len() {
        None
    } else if units[i].kind == UnitType::CONSTRUCTOR {
        Some(units[i])
    } else {
        spec_first_constructor(units, i + 1)
    }
}

/// What building the document from its unit list gives: the first
/// constructor and the function table, or the constructor-not-found error.
pub open spec fn spec_build_document(units: Seq<ABIUnitView>) -> Result<ABIView, ErrorView> {
    match spec_first_constructor(units, 0) {
        None => Err(ErrorView::ABIParseError("constructor not found"@)),
        Some(c) => Ok(ABIView { constructor: c, function: spec_fn_table(units) }),
    }
}

/// What parsing a decoded JSON document into an ABI gives.
pub open spec fn spec_abi_of(doc: JsonView) -> Result<ABIView, ErrorView> {
    match spec_units_of(doc) {
        Err(e) => Err(e),
        Ok(units) => spec_build_document(units),
    }
}

/// What parsing raw ABI text gives: the decoder's message as an
/// `ABIParseError`, or the document built from the decoded value.
pub open spec fn spec_parse_abi(s: Seq<char>) -> Result<ABIView, ErrorView> {
    match json_doc_of(s) {
        Err(m) => Err(ErrorView::ABIParseError(m)),
        Ok(doc) => spec_abi_of(doc),
    }
}

/// The first unit of the table under the given key, if any.
pub open spec fn spec_table_lookup(t: Seq<ABIUnitView>, k: Seq<char>) -> Option<ABIUnitView>
    decreases t.len(),
{
    if t.len() == 0 {
        None
    } else if unit_key(t[0]) == k {
        Some(t[0])
    } else {
        spec_table_lookup(t.subrange(1, t.len() as int), k)
    }
}

/// The view of a decoded-variable result.
pub open spec fn var_result_view(r: Result<Variable, Error>) -> Result<VariableView, ErrorView> {
    match r {
        Ok(v) => Ok(v@),
        Err(e) => Err(e@),
    }
}

/// The view of a decoded-variable-list result.
pub open spec fn vars_result_view(r: Result<Vec<Variable>, Error>) -> Result<
    Seq<VariableView>,
    ErrorView,
> {
    match r {
        Ok(vs) => Ok(var_views(vs@)),
        Err(e) => Err(e@),
    }
}

/// The view of a decoded-unit result.
pub open spec fn unit_result_view(r: Result<ABIUnit, Error>) -> Result<ABIUnitView, ErrorView> {
    match r {
        Ok(u) => Ok(u@),
        Err(e) => Err(e@),
    }
}

/// The view of a decoded-unit-list result.
pub open spec fn units_result_view(r: Result<Vec<ABIUnit>, Error>) -> Result<
    Seq<ABIUnitView>,
    ErrorView,
> {
    match r {
        Ok(us) => Ok(unit_views(us@)),
        Err(e) => Err(e@),
    }
}

/// The view of a parsed-document result.
pub open spec fn abi_result_view(r: Result<ABI, Error>) -> Result<ABIView, ErrorView> {
    match r {
        Ok(abi) => Ok(abi@),
        Err(e) => Err(e@),
    }
}

/// The first value under the given key of a JSON object's entries.
fn obj_get<'a>(entries: &'a Vec<(String, JsonVal)>, key: &str) -> (r: Option<&'a JsonVal>)
    ensures
        match r {
            Some(v) => obj_lookup(jview_entries(entries@), key@) == Some(jview(*v)),
            None => obj_lookup(jview_entries(entries@), key@) is None,
        },
{
    let ghost ev = jview_entries(entries@);
    let n = entries.len();
    proof {
        lemma_jview_entries(entries@);
        assert(ev.subrange(0, n as int) =~= ev);
    }
    let mut i: usize = 0;
    while i < n
        invariant
            i <= n,
            n == entries@.len(),
            ev == jview_entries(entries@),
            ev.len() == n,
            forall|j: int| 0 <= j < n ==> ev[j] == (entries@[j].0@, jview(entries@[j].1)),
            obj_lookup(ev, key@) == obj_lookup(ev.subrange(i as int, n as int), key@),
        decreases n - i,
    {
        let hit = str_eq(entries[i].0.as_str(), key);
        proof {
            let sub = ev.subrange(i as int, n as int);
            assert(sub[0] == ev[i as int]);
            assert(sub.subrange(1, sub.len() as int) =~= ev.subrange(i as int + 1, n as int));
        }
        if hit {
            return Some(&entries[i].1);
        }
        i = i + 1;
    }
    proof {
        assert(ev.subrange(n as int, n as int) =~= Seq::<(Seq<char>, JsonView)>::empty());
    }
    None
}

/// The unit kind a discriminant string names, without regard to ASCII case.
fn unit_type_of(s: &str) -> (r: Option<UnitType>)
    ensures
        r == spec_unit_type_of(s@),
{
    if str_eq_ci(s, "event") {
        Some(UnitType::EVENT)
    } else if str_eq_ci(s, "error") {
        Some(UnitType::ERROR)
    } else if str_eq_ci(s, "constructor") {
        Some(UnitType::CONSTRUCTOR)
    } else if str_eq_ci(s, "function") {
        Some(UnitType::FUNCTION)
    } else if str_eq_ci(s, "receive") {
        Some(UnitType::RECEIVE)
    } else if str_eq_ci(s, "fallback") {
        Some(UnitType::FALLBACK)
    } else {
        None
    }
}

/// Decodes one declared variable from its JSON description.
fn var_of(v: &JsonVal) -> (r: Result<Variable, Error>)
    ensures
        var_result_view(r) == spec_var_of(jview(*v)),
{
    match v {
        JsonVal::Obj(entries) => {
            let name = match obj_get(entries, "name") {
                Some(JsonVal::Str(n)) => n.clone(),
                _ => {
                    return Err(abi_parse_error("invalid abi variable"));
                },
            };
            let declared_type = match obj_get(entries, "type") {
                Some(JsonVal::Str(t)) => t.clone(),
                _ => {
                    return Err(abi_parse_error("invalid abi variable"));
                },
            };
            let internal_type = match obj_get(entries, "internalType") {
                Some(JsonVal::Str(it)) => it.clone(),
                _ => {
                    return Err(abi_parse_error("invalid abi variable"));
                },
            };
            Ok(Variable { name, declared_type, internal_type })
        },
        _ => Err(abi_parse_error("invalid abi variable")),
    }
}

/// Decodes a list of declared variables, in order, stopping at the first
/// error.
fn vars_from_json(a: &Vec<JsonVal>) -> (r: Result<Vec<Variable>, Error>)
    ensures
        vars_result_view(r) == spec_vars_from(jview_seq(a@), 0),
{
    let ghost av = jview_seq(a@);
    proof {
        lemma_jview_seq(a@);
    }
    let n = a.len();
    let mut acc: Vec<Variable> = Vec::new();
    let mut i: usize = 0;
    proof {
        assert(var_views(acc@) + spec_vars_from(av, 0)->Ok_0 =~= spec_vars_from(av, 0)->Ok_0);
    }
    while i < n
        invariant
            i <= n,
            n == a@.len(),
            av == jview_seq(a@),
            av.len() == n,
            forall|j: int| 0 <= j < n ==> av[j] == jview(a@[j]),
            acc@.len() == i,
            match spec_vars_from(av, i as int) {
                Ok(rest) => spec_vars_from(av, 0) == Ok::<Seq<VariableView>, ErrorView>(
                    var_views(acc@) + rest,
                ),
                Err(e) => spec_vars_from(av, 0) == Err::<Seq<VariableView>, ErrorView>(e),
            },
        decreases n - i,
    {
        let item = match var_of(&a[i]) {
            Ok(x) => x,
            Err(e) => {
                return Err(e);
            },
        };
        proof {
            let old_acc = acc@;
            match spec_vars_from(av, i + 1) {
                Ok(rest) => {
                    assert(var_views(old_acc.push(item)) =~= var_views(old_acc).push(item@));
                    assert(var_views(old_acc) + (seq![item@] + rest) =~= var_views(
                        old_acc.push(item),
                    ) + rest);
                },
                Err(_) => {},
            }
        }
        acc.push(item);
        i = i + 1;
    }
    proof {
        assert(var_views(acc@) + Seq::<VariableView>::empty() =~= var_views(acc@));
    }
    Ok(acc)
}

/// Reads an optional string field of a unit description.
fn string_field(entries: &Vec<(String, JsonVal)>, key: &str) -> (r: Result<Option<String>, Error>)
    ensures
        match r {
            Ok(Some(s)) => spec_string_field(jview_entries(entries@), key@) == Ok::<
                Option<Seq<char>>,
                ErrorView,
            >(Some(s@)),
            Ok(None) => spec_string_field(jview_entries(entries@), key@) == Ok::<
                Option<Seq<char>>,
                ErrorView,
            >(None),
            Err(e) => spec_string_field(jview_entries(entries@), key@) == Err::<
                Option<Seq<char>>,
                ErrorView,
            >(e@),
        },
{
    match obj_get(entries, key) {
        None => Ok(None),
        Some(JsonVal::Null) => Ok(None),
        Some(JsonVal::Str(s)) => Ok(Some(s.clone())),
        Some(_) => Err(Error::ABIParseError(prefixed_msg("invalid abi unit field: ", key))),
    }
}

/// Reads an optional boolean field of a unit description.
fn bool_field(entries: &Vec<(String, JsonVal)>, key: &str) -> (r: Result<Option<bool>, Error>)
    ensures
        match r {
            Ok(b) => spec_bool_field(jview_entries(entries@), key@) == Ok::<
                Option<bool>,
                ErrorView,
            >(b),
            Err(e) => spec_bool_field(jview_entries(entries@), key@) == Err::<
                Option<bool>,
                ErrorView,
            >(e@),
        },
{
    match obj_get(entries, key) {
        None => Ok(None),
        Some(JsonVal::Null) => Ok(None),
        Some(JsonVal::Bool(b)) => Ok(Some(*b)),
        Some(_) => Err(Error::ABIParseError(prefixed_msg("invalid abi unit field: ", key))),
    }
}

/// Reads an optional list-of-variables field of a unit description.
fn vars_field(entries: &Vec<(String, JsonVal)>, key: &str) -> (r: Result<
    Option<Vec<Variable>>,
    Error,
>)
    ensures
        match r {
            Ok(Some(vs)) => spec_vars_field(jview_entries(entries@), key@) == Ok::<
                Option<Seq<VariableView>>,
                ErrorView,
            >(Some(var_views(vs@))),
            Ok(None) => spec_vars_field(jview_entries(entries@), key@) == Ok::<
                Option<Seq<VariableView>>,
                ErrorView,
            >(None),
            Err(e) => spec_vars_field(jview_entries(entries@), key@) == Err::<
                Option<Seq<VariableView>>,
                ErrorView,
            >(e@),
        },
{
    match obj_get(entries, key) {
        None => Ok(None),
        Some(JsonVal::Null) => Ok(None),
        Some(JsonVal::Arr(a)) => match vars_from_json(a) {
            Ok(vs) => Ok(Some(vs)),
            Err(e) => Err(e),
        },
        Some(_) => Err(Error::ABIParseError(prefixed_msg("invalid abi unit field: ", key))),
    }
}

/// Decodes one ABI unit from its JSON description.
pub fn unit_from_json(v: &JsonVal) -> (r: Result<ABIUnit, Error>)
    ensures
        unit_result_view(r) == spec_unit_of(jview(*v)),
{
    match v {
        JsonVal::Obj(entries) => {
            let kind = match obj_get(entries, "type") {
                None => {
                    return Err(abi_parse_error("missing abi unit type"));
                },
                Some(JsonVal::Str(ts)) => match unit_type_of(ts.as_str()) {
                    Some(k) => k,
                    None => {
                        return Err(abi_parse_error("unknown abi unit type"));
                    },
                },
                Some(_) => {
                    return Err(
                        Error::ABIParseError(prefixed_msg("invalid abi unit field: ", "type")),
                    );
                },
            };
            let name = match string_field(entries, "name") {
                Ok(x) => x,
                Err(e) => {
                    return Err(e);
                },
            };
            let anonymous = match bool_field(entries, "anonymous") {
                Ok(x) => x,
                Err(e) => {
                    return Err(e);
                },
            };
            let inputs = match vars_field(entries, "inputs") {
                Ok(x) => x,
                Err(e) => {
                    return Err(e);
                },
            };
            let outputs = match vars_field(entries, "outputs") {
                Ok(x) => x,
                Err(e) => {
                    return Err(e);
                },
            };
            let state_mutability = match string_field(entries, "stateMutability") {
                Ok(x) => x,
                Err(e) => {
                    return Err(e);
                },
            };
            Ok(ABIUnit { kind, name, anonymous, inputs, outputs, state_mutability })
        },
        _ => Err(abi_parse_error("abi unit is not an object")),
    }
}

/// Decodes the unit list of an ABI document, in order, stopping at the
/// first error.
pub fn units_from_json(a: &Vec<JsonVal>) -> (r: Result<Vec<ABIUnit>, Error>)
    ensures
        units_result_view(r) == spec_units_from(jview_seq(a@), 0),
{
    let ghost av = jview_seq(a@);
    proof {
        lemma_jview_seq(a@);
    }
    let n = a.len();
    let mut acc: Vec<ABIUnit> = Vec::new();
    let mut i: usize = 0;
    proof {
        assert(unit_views(acc@) + spec_units_from(av, 0)->Ok_0 =~= spec_units_from(av, 0)->Ok_0);
    }
    while i < n
        invariant
            i <= n,
            n == a@.len(),
            av == jview_seq(a@),
            av.len() == n,
            forall|j: int| 0 <= j < n ==> av[j] == jview(a@[j]),
            acc@.len() == i,
            match spec_units_from(av, i as int) {
                Ok(rest) => spec_units_from(av, 0) == Ok::<Seq<ABIUnitView>, ErrorView>(
                    unit_views(acc@) + rest,
                ),
                Err(e) => spec_units_from(av, 0) == Err::<Seq<ABIUnitView>, ErrorView>(e),
            },
        decreases n - i,
    {
        let item = match unit_from_json(&a[i]) {
            Ok(x) => x,
            Err(e) => {
                return Err(e);
            },
        };
        proof {
            let old_acc = acc@;
            match spec_units_from(av, i + 1) {
                Ok(rest) => {
                    assert(unit_views(old_acc.push(item)) =~= unit_views(old_acc).push(item@));
                    assert(unit_views(old_acc) + (seq![item@] + rest) =~= unit_views(
                        old_acc.push(item),
                    ) + rest);
                },
                Err(_) => {},
            }
        }
        acc.push(item);
        i = i + 1;
    }
    proof {
        assert(unit_views(acc@) + Seq::<ABIUnitView>::empty() =~= unit_views(acc@));
    }
    Ok(acc)
}

/// The name a unit is indexed under, as a string slice.
fn unit_key_str(u: &ABIUnit) -> (r: &str)
    ensures
        r@ == unit_key(u@),
{
    match &u.name {
        Some(n) => n.as_str(),
        None => {
            let r = "";
            proof {
                reveal_strlit("");
                assert(r@ =~= Seq::<char>::empty());
            }
            r
        },
    }
}

/// Whether the table already holds a unit under the given key.
fn table_contains_key(table: &Vec<ABIUnit>, key: &str) -> (r: bool)
    ensures
        r == table_has_key(unit_views(table@), key@),
{
    let ghost tv = unit_views(table@);
    let n = table.len();
    let mut i: usize = 0;
    while i < n
        invariant
            i <= n,
            n == table@.len(),
            tv == unit_views(table@),
            forall|j: int| 0 <= j < i ==> unit_key(tv[j]) != key@,
        decreases n - i,
    {
        let hit = str_eq(unit_key_str(&table[i]), key);
        if hit {
            proof {
                assert(unit_key(tv[i as int]) == key@);
            }
            return true;
        }
        i = i + 1;
    }
    false
}

impl ABI {
    /// Builds the document from its decoded unit list: the first constructor
    /// and the function table, keeping the first definition of each name;
    /// fails when no constructor unit exists.
    pub fn build(units: Vec<ABIUnit>) -> (r: Result<ABI, Error>)
        ensures
            abi_result_view(r) == spec_build_document(unit_views(units@)),
    {
        let ghost orig = units@;
        let ghost full = unit_views(orig);
        let mut units = units;
        let n = units.len();
        let mut constructor: Option<ABIUnit> = None;
        let mut table: Vec<ABIUnit> = Vec::new();
        let mut p: usize = 0;
        proof {
            assert(full.subrange(0, 0) =~= Seq::<ABIUnitView>::empty());
            assert(unit_views(table@) =~= Seq::<ABIUnitView>::empty());
            assert(units@ =~= orig.subrange(0, n as int));
        }
        while p < n
            invariant
                p <= n,
                n == orig.len(),
                full == unit_views(orig),
                full.len() == n,
                units@ == orig.subrange(p as int, n as int),
                match constructor {
                    Some(c) => spec_first_constructor(full, 0) == Some(c@),
                    None => spec_first_constructor(full, 0) == spec_first_constructor(
                        full,
                        p as int,
                    ),
                },
                unit_views(table@) == spec_fn_table(full.subrange(0, p as int)),
            decreases n - p,
        {
            let u = units.remove(0);
            proof {
                assert(orig.subrange(p as int, n as int)[0] == orig[p as int]);
                assert(u@ == full[p as int]);
                assert(units@ =~= orig.subrange(p as int + 1, n as int));
                assert(full.subrange(0, p as int + 1).drop_last() =~= full.subrange(0, p as int));
                assert(full.subrange(0, p as int + 1).last() == full[p as int]);
            }
            if constructor.is_none() && u.kind == UnitType::CONSTRUCTOR {
                constructor = Some(u);
            } else {
                let is_function = u.kind == UnitType::FUNCTION;
                let absent = !table_contains_key(&table, unit_key_str(&u));
                if is_function && absent {
                    proof {
                        let old_table = table@;
                        assert(unit_views(old_table.push(u)) =~= unit_views(old_table).push(u@));
                    }
                    table.push(u);
                }
            }
            p = p + 1;
        }
        proof {
            assert(full.subrange(0, n as int) =~= full);
        }
        match constructor {
            None => Err(abi_parse_error("constructor not found")),
            Some(c) => Ok(ABI { constructor: c, function: table }),
        }
    }

    /// Decodes and builds a document from a JSON value: the value must be an
    /// array of unit descriptions holding at least one constructor.
    pub fn from_json(doc: &JsonVal) -> (r: Result<ABI, Error>)
        ensures
            abi_result_view(r) == spec_abi_of(jview(*doc)),
    {
        match doc {
            JsonVal::Arr(a) => match units_from_json(a) {
                Err(e) => Err(e),
                Ok(units) => Self::build(units),
            },
            _ => Err(abi_parse_error("abi document is not an array")),
        }
    }

    /// Parses raw ABI text: a decode failure becomes an `ABIParseError`
    /// carrying the decoder's message; a decoded value is built into the
    /// document.
    pub fn parse(s: &str) -> (r: Result<ABI, Error>)
        ensures
            abi_result_view(r) == spec_parse_abi(s@),
    {
        match parse_json_text(s) {
            Err(m) => Err(Error::ABIParseError(m)),
            Ok(doc) => Self::from_json(&doc),
        }
    }

    /// The function unit declared under the given name, if any.
    pub fn get_function<'a>(&'a self, name: &str) -> (r: Option<&'a ABIUnit>)
        ensures
            match r {
                Some(u) => spec_table_lookup(self@.function, name@) == Some(u@),
                None => spec_table_lookup(self@.function, name@) is None,
            },
    {
        let ghost tv = self@.function;
        let n = self.function.len();
        proof {
            assert(tv.subrange(0, n as int) =~= tv);
        }
        let mut i: usize = 0;
        while i < n
            invariant
                i <= n,
                n == self.function@.len(),
                tv == self@.function,
                tv.len() == n,
                spec_table_lookup(tv, name@) == spec_table_lookup(
                    tv.subrange(i as int, n as int),
                    name@,
                ),
            decreases n - i,
        {
            let hit = str_eq(unit_key_str(&self.function[i]), name);
            proof {
                let sub = tv.subrange(i as int, n as int);
                assert(sub[0] == tv[i as int]);
                assert(sub.subrange(1, sub.len() as int) =~= tv.subrange(i as int + 1, n as int));
            }
            if hit {
                return Some(&self.function[i]);
            }
            i = i + 1;
        }
        proof {
            assert(tv.subrange(n as int, n as int) =~= Seq::<ABIUnitView>::empty());
        }
        None
    }
}

impl core::str::FromStr for ABI {
    type Err = Error;

    fn from_str(s: &str) -> Result<ABI, Error> {
        ABI::parse(s)
    }
}

/// No constructor stands at position `i` or later of a constructor-free
/// unit list.
proof fn lemma_no_constructor_from(units: Seq<ABIUnitView>, i: int)
    requires
        forall|j: int| 0 <= j < units.len() ==> units[j].kind != UnitType::CONSTRUCTOR,
        0 <= i,
    ensures
        spec_first_constructor(units, i) is None,
    decreases units.len() - i,
{
    if i < units.len() {
        lemma_no_constructor_from(units, i + 1);
    }
}

/// Law: a unit list without a constructor builds to the
/// constructor-not-found parse error.
pub proof fn lemma_missing_constructor_fails(units: Seq<ABIUnitView>)
    requires
        forall|j: int| 0 <= j < units.len() ==> units[j].kind != UnitType::CONSTRUCTOR,
    ensures
        spec_build_document(units) == Err::<ABIView, ErrorView>(
            ErrorView::ABIParseError("constructor not found"@),
        ),
{
    lemma_no_constructor_from(units, 0);
}

/// A constructor at position `i` or later is found from position `i`.
proof fn lemma_constructor_found_from(units: Seq<ABIUnitView>, i: int)
    requires
        0 <= i,
        exists|j: int| i <= j < units.len() && units[j].kind == UnitType::CONSTRUCTOR,
    ensures
        spec_first_constructor(units, i) is Some,
    decreases units.len() - i,
{
    let j = choose|j: int| i <= j < units.len() && units[j].kind == UnitType::CONSTRUCTOR;
    if units[i].kind != UnitType::CONSTRUCTOR {
        assert(i + 1 <= j < units.len() && units[j].kind == UnitType::CONSTRUCTOR);
        lemma_constructor_found_from(units, i + 1);
    }
}

/// The number of function-kind units of a list.
pub open spec fn count_functions(units: Seq<ABIUnitView>) -> nat
    decreases units.len(),
{
    if units.len() == 0 {
        0
    } else {
        (count_functions(units.drop_last()) + if units.last().kind == UnitType::FUNCTION {
            1nat
        } else {
            0nat
        }) as nat
    }
}

/// Whether some function-kind unit of the list is the given value.
spec fn is_function_unit_of(units: Seq<ABIUnitView>, u: ABIUnitView) -> bool {
    exists|i: int|
        0 <= i < units.len() && #[trigger] units[i] == u && units[i].kind == UnitType::FUNCTION
}

/// Every entry of the function table is a function-kind unit of the list.
proof fn lemma_fn_table_elements(units: Seq<ABIUnitView>)
    ensures
        forall|t: int|
            0 <= t < spec_fn_table(units).len() ==> is_function_unit_of(
                units,
                #[trigger] spec_fn_table(units)[t],
            ),
    decreases units.len(),
{
    if units.len() > 0 {
        let prefix = units.drop_last();
        lemma_fn_table_elements(prefix);
        let table = spec_fn_table(units);
        assert forall|t: int| 0 <= t < table.len() implies is_function_unit_of(
            units,
            #[trigger] table[t],
        ) by {
            if t < spec_fn_table(prefix).len() {
                assert(is_function_unit_of(prefix, spec_fn_table(prefix)[t]));
                let i = choose|i: int|
                    0 <= i < prefix.len() && #[trigger] prefix[i] == spec_fn_table(prefix)[t]
                        && prefix[i].kind == UnitType::FUNCTION;
                assert(units[i] == table[t] && units[i].kind == UnitType::FUNCTION);
            } else {
                let i = units.len() - 1;
                assert(units[i] == table[t] && units[i].kind == UnitType::FUNCTION);
            }
        }
    }
}

/// With pairwise-distinct function keys, the table keeps every function
/// unit: one entry per function unit of the list.
proof fn lemma_fn_table_full(units: Seq<ABIUnitView>)
    requires
        forall|i: int, j: int|
            0 <= i < j < units.len() && units[i].kind == UnitType::FUNCTION && units[j].kind
                == UnitType::FUNCTION ==> unit_key(units[i]) != unit_key(units[j]),
    ensures
        spec_fn_table(units).len() == count_functions(units),
    decreases units.len(),
{
    if units.len() > 0 {
        let prefix = units.drop_last();
        let u = units.last();
        assert(forall|i: int, j: int|
            0 <= i < j < prefix.len() && prefix[i].kind == UnitType::FUNCTION && prefix[j].kind
                == UnitType::FUNCTION ==> unit_key(prefix[i]) != unit_key(prefix[j]));
        lemma_fn_table_full(prefix);
        if u.kind == UnitType::FUNCTION {
            if table_has_key(spec_fn_table(prefix), unit_key(u)) {
                let t = choose|t: int|
                    0 <= t < spec_fn_table(prefix).len() && unit_key(
                        #[trigger] spec_fn_table(prefix)[t],
                    ) == unit_key(u);
                lemma_fn_table_elements(prefix);
                assert(is_function_unit_of(prefix, spec_fn_table(prefix)[t]));
                let i = choose|i: int|
                    0 <= i < prefix.len() && #[trigger] prefix[i] == spec_fn_table(prefix)[t]
                        && prefix[i].kind == UnitType::FUNCTION;
                assert(units[i] == prefix[i]);
                assert(unit_key(units[i]) != unit_key(units[units.len() - 1]));
                assert(false);
            }
        }
    }
}

/// Law: the function table never holds more entries than the list holds
/// function units; name collisions only shrink it.
pub proof fn lemma_fn_table_at_most_one_per_unit(units: Seq<ABIUnitView>)
    ensures
        spec_fn_table(units).len() <= count_functions(units),
    decreases units.len(),
{
    if units.len() > 0 {
        lemma_fn_table_at_most_one_per_unit(units.drop_last());
    }
}

/// A lookup that succeeds is unchanged by appending another entry.
proof fn lemma_table_lookup_push_present(t: Seq<ABIUnitView>, u: ABIUnitView, k: Seq<char>)
    requires
        spec_table_lookup(t, k) is Some,
    ensures
        spec_table_lookup(t.push(u), k) == spec_table_lookup(t, k),
    decreases t.len(),
{
    let p = t.push(u);
    if t.len() > 0 {
        assert(p[0] == t[0]);
        if unit_key(t[0]) != k {
            let tsub = t.subrange(1, t.len() as int);
            assert(p.subrange(1, p.len() as int) =~= tsub.push(u));
            lemma_table_lookup_push_present(tsub, u, k);
        }
    }
}

/// A lookup finds the entry at the first position that carries the key.
proof fn lemma_table_lookup_at(t: Seq<ABIUnitView>, j: int, k: Seq<char>)
    requires
        0 <= j < t.len(),
        unit_key(t[j]) == k,
        forall|i: int| 0 <= i < j ==> unit_key(#[trigger] t[i]) != k,
    ensures
        spec_table_lookup(t, k) == Some(t[j]),
    decreases j,
{
    if j > 0 {
        let tsub = t.subrange(1, t.len() as int);
        assert(tsub[j - 1] == t[j]);
        assert(forall|i: int| 0 <= i < j - 1 ==> unit_key(#[trigger] tsub[i]) != k);
        lemma_table_lookup_at(tsub, j - 1, k);
    }
}

/// Law: when a function unit is the first of its name in the list, the
/// built table resolves that name to exactly that unit: the first
/// definition wins.
pub proof fn lemma_first_definition_wins(units: Seq<ABIUnitView>, j: int)
    requires
        0 <= j < units.len(),
        units[j].kind == UnitType::FUNCTION,
        forall|i: int|
            0 <= i < j && (#[trigger] units[i]).kind == UnitType::FUNCTION ==> unit_key(units[i])
                != unit_key(units[j]),
    ensures
        spec_table_lookup(spec_fn_table(units), unit_key(units[j])) == Some(units[j]),
    decreases units.len(),
{
    let n = units.len() as int;
    let prefix = units.drop_last();
    let u = units.last();
    let k = unit_key(units[j]);
    let ptable = spec_fn_table(prefix);
    if j == n - 1 {
        if table_has_key(ptable, k) {
            let t = choose|t: int| 0 <= t < ptable.len() && unit_key(#[trigger] ptable[t]) == k;
            lemma_fn_table_elements(prefix);
            assert(is_function_unit_of(prefix, ptable[t]));
            let i = choose|i: int|
                0 <= i < prefix.len() && #[trigger] prefix[i] == ptable[t] && prefix[i].kind
                    == UnitType::FUNCTION;
            assert(units[i] == prefix[i]);
            assert(false);
        }
        let table = ptable.push(u);
        assert(spec_fn_table(units) == table);
        assert(table[ptable.len() as int] == u);
        assert(forall|i: int| 0 <= i < ptable.len() ==> unit_key(#[trigger] table[i]) != k);
        lemma_table_lookup_at(table, ptable.len() as int, k);
    } else {
        assert(prefix[j] == units[j]);
        lemma_first_definition_wins(prefix, j);
        if u.kind == UnitType::FUNCTION && !table_has_key(ptable, unit_key(u)) {
            assert(spec_table_lookup(ptable, k) is Some);
            lemma_table_lookup_push_present(ptable, u, k);
        }
    }
}

/// Law: a unit list holding a constructor and function units with pairwise
/// distinct names builds successfully, and the function table holds exactly
/// one entry per function unit.
pub proof fn lemma_distinct_functions_all_kept(units: Seq<ABIUnitView>)
    requires
        exists|j: int| 0 <= j < units.len() && units[j].kind == UnitType::CONSTRUCTOR,
        forall|i: int, j: int|
            0 <= i < j < units.len() && units[i].kind == UnitType::FUNCTION && units[j].kind
                == UnitType::FUNCTION ==> unit_key(units[i]) != unit_key(units[j]),
    ensures
        spec_build_document(units) is Ok,
        spec_build_document(units)->Ok_0.function.len() == count_functions(units),
{
    lemma_constructor_found_from(units, 0);
    lemma_fn_table_full(units);
}

} // verus!
